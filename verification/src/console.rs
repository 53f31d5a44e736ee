//! The consoles that the library knows, and the folder names under which
//! their ROMs are found.

use vstd::prelude::*;
use crate::text::{
    ascii_lowered, clone_opt, clone_strings, opt_view, same_ignoring_ascii_case, strings_view,
};

verus! {

/// A console: its name, the folder names that stand for it, and the
/// identifiers under which the providers know it.
#[derive(Debug, Clone)]
pub struct Console {
    pub name: String,
    pub patterns: Vec<String>,
    pub screenscraper_id: Option<i32>,
    pub thegamesdb_id: Option<i32>,
    pub gamefaqs_archive_id: Option<String>,
}

/// The mathematical value of a [`Console`].
pub struct ConsoleView {
    pub name: Seq<char>,
    pub patterns: Seq<Seq<char>>,
    pub screenscraper_id: Option<i32>,
    pub thegamesdb_id: Option<i32>,
    pub gamefaqs_archive_id: Option<Seq<char>>,
}

impl View for Console {
    type V = ConsoleView;

    open spec fn view(&self) -> ConsoleView {
        ConsoleView {
            name: self.name@,
            patterns: strings_view(self.patterns@),
            screenscraper_id: self.screenscraper_id,
            thegamesdb_id: self.thegamesdb_id,
            gamefaqs_archive_id: opt_view(self.gamefaqs_archive_id),
        }
    }
}

impl ConsoleView {
    /// Whether one of the console's patterns is `folder_name`, the case of
    /// ASCII letters left out of account.
    pub open spec fn matches(self, folder_name: Seq<char>) -> bool {
        exists|j: int|
            0 <= j < self.patterns.len() && ascii_lowered(#[trigger] self.patterns[j])
                == ascii_lowered(folder_name)
    }
}

impl Console {
    /// A copy with the same value.
    pub fn duplicate(&self) -> (r: Console)
        ensures
            r@ == self@,
    {
        Console {
            name: self.name.clone(),
            patterns: clone_strings(&self.patterns),
            screenscraper_id: self.screenscraper_id,
            thegamesdb_id: self.thegamesdb_id,
            gamefaqs_archive_id: clone_opt(&self.gamefaqs_archive_id),
        }
    }

    /// Whether one of the console's patterns is `folder_name`, the case of
    /// ASCII letters left out of account.
    pub fn matches(&self, folder_name: &str) -> (r: bool)
        ensures
            r == self@.matches(folder_name@),
    {
        let mut j: usize = 0;
        while j < self.patterns.len()
            invariant
                j <= self.patterns@.len(),
                forall|k: int|
                    0 <= k < j ==> ascii_lowered(#[trigger] self@.patterns[k]) != ascii_lowered(
                        folder_name@,
                    ),
            decreases self.patterns@.len() - j,
        {
            if same_ignoring_ascii_case(folder_name, self.patterns[j].as_str()) {
                assert(self@.patterns[j as int] == self.patterns@[j as int]@);
                return true;
            }
            assert(self@.patterns[j as int] == self.patterns@[j as int]@);
            j += 1;
        }
        false
    }
}

/// The consoles of a configuration, in its order.
#[derive(Debug)]
pub struct ConsolesConfig {
    pub consoles: Vec<Console>,
}

/// The values of a list of consoles, in order.
pub open spec fn consoles_view(v: Seq<Console>) -> Seq<ConsoleView> {
    Seq::new(v.len(), |i: int| v[i]@)
}

/// The patterns of all consoles, console after console.
pub open spec fn all_patterns_of(consoles: Seq<ConsoleView>) -> Seq<Seq<char>>
    decreases consoles.len(),
{
    if consoles.len() == 0 {
        Seq::empty()
    } else {
        all_patterns_of(consoles.drop_last()) + consoles.last().patterns
    }
}

impl View for ConsolesConfig {
    type V = Seq<ConsoleView>;

    open spec fn view(&self) -> Seq<ConsoleView> {
        consoles_view(self.consoles@)
    }
}

impl ConsolesConfig {
    /// The first console of which one pattern is `folder_name`, the case of
    /// ASCII letters left out of account; `None` where there is none.
    pub fn find_console(&self, folder_name: &str) -> (r: Option<&Console>)
        ensures
            match r {
                Some(console) => exists|i: int|
                    0 <= i < self.consoles@.len() && *console == #[trigger] self.consoles@[i]
                        && self@[i].matches(folder_name@) && forall|k: int|
                        0 <= k < i ==> !(#[trigger] self@[k]).matches(folder_name@),
                None => forall|k: int|
                    0 <= k < self@.len() ==> !(#[trigger] self@[k]).matches(folder_name@),
            },
    {
        let mut i: usize = 0;
        while i < self.consoles.len()
            invariant
                i <= self.consoles@.len(),
                forall|k: int| 0 <= k < i ==> !(#[trigger] self@[k]).matches(folder_name@),
            decreases self.consoles@.len() - i,
        {
            if self.consoles[i].matches(folder_name) {
                assert(self@[i as int] == self.consoles@[i as int]@);
                return Some(&self.consoles[i]);
            }
            assert(self@[i as int] == self.consoles@[i as int]@);
            i += 1;
        }
        None
    }

    /// The patterns of all consoles, console after console.
    pub fn all_patterns(&self) -> (r: Vec<String>)
        ensures
            strings_view(r@) == all_patterns_of(self@),
    {
        let mut r: Vec<String> = Vec::new();
        let mut i: usize = 0;
        proof {
            assert(self@.take(0) =~= Seq::<ConsoleView>::empty());
            assert(strings_view(r@) =~= Seq::<Seq<char>>::empty());
        }
        while i < self.consoles.len()
            invariant
                i <= self.consoles@.len(),
                strings_view(r@) == all_patterns_of(self@.take(i as int)),
            decreases self.consoles@.len() - i,
        {
            let console = &self.consoles[i];
            let ghost base = strings_view(r@);
            let mut j: usize = 0;
            while j < console.patterns.len()
                invariant
                    j <= console.patterns@.len(),
                    strings_view(r@) == base + console@.patterns.take(j as int),
                decreases console.patterns@.len() - j,
            {
                let ghost before = r@;
                r.push(console.patterns[j].clone());
                proof {
                    assert(console@.patterns[j as int] == console.patterns@[j as int]@);
                    assert(strings_view(r@) =~= strings_view(before).push(
                        console.patterns@[j as int]@,
                    ));
                    assert(console@.patterns.take(j + 1) =~= console@.patterns.take(j as int).push(
                        console@.patterns[j as int],
                    ));
                }
                j += 1;
            }
            proof {
                assert(console@.patterns.take(console@.patterns.len() as int)
                    =~= console@.patterns);
                assert(self@.take(i + 1).drop_last() =~= self@.take(i as int));
                assert(self@.take(i + 1).last() == console@);
            }
            i += 1;
        }
        assert(self@.take(self@.len() as int) =~= self@);
        r
    }
}

} // verus!

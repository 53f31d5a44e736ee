//! The list of the games that were processed, by pages.

use vstd::prelude::*;
use crate::progress::{opt_data_view, GameData, GameDataView};
use crate::text::{same_text, chars_of, split, split_text, string_of_range, strings_view, trim_bounds, trimmed};

verus! {

/// Which part of the list is asked for.
#[derive(Debug, Clone, Copy)]
pub struct PaginationParams {
    pub offset: usize,
    pub limit: usize,
}

/// The number of games on a page unless another is asked for.
pub fn default_limit() -> (r: usize)
    ensures
        r == 10,
{
    10
}

/// One page of the list.
#[derive(Debug)]
pub struct GamesResponse {
    pub games: Vec<String>,
    pub total: usize,
    pub offset: usize,
    pub limit: usize,
}

/// The names that the lines of an index give: each line without the white
/// space around it, empty lines left out.
pub open spec fn names_of_lines(lines: Seq<Seq<char>>) -> Seq<Seq<char>>
    decreases lines.len(),
{
    if lines.len() == 0 {
        Seq::empty()
    } else {
        let front = names_of_lines(lines.drop_last());
        let name = trimmed(lines.last());
        if name.len() > 0 {
            front.push(name)
        } else {
            front
        }
    }
}

/// The names that an index holds, oldest first.
pub open spec fn index_names(content: Seq<char>) -> Seq<Seq<char>> {
    names_of_lines(split(content, '\n'))
}

/// The page of `games` that `params` asks for: the games are counted from
/// the newest, which stands last in the index; `offset` of them are passed
/// over, and at most `limit` are given.
pub open spec fn page_of(games: Seq<Seq<char>>, offset: nat, limit: nat) -> Seq<Seq<char>> {
    let newest_first = games.reverse();
    if offset >= games.len() {
        Seq::empty()
    } else if offset + limit >= games.len() {
        newest_first.skip(offset as int)
    } else {
        newest_first.subrange(offset as int, (offset + limit) as int)
    }
}

/// The names that an index holds, oldest first.
pub fn load_scraped_index(content: &str) -> (r: Vec<String>)
    ensures
        strings_view(r@) == index_names(content@),
{
    let lines = split_text(content, '\n');
    let ghost all = strings_view(lines@);
    let mut games: Vec<String> = Vec::new();
    let mut i: usize = 0;
    proof {
        assert(all.take(0) =~= Seq::<Seq<char>>::empty());
        assert(strings_view(games@) =~= Seq::<Seq<char>>::empty());
    }
    while i < lines.len()
        invariant
            i <= lines@.len(),
            all == strings_view(lines@),
            strings_view(games@) == names_of_lines(all.take(i as int)),
        decreases lines@.len() - i,
    {
        proof {
            assert(all.take(i + 1).drop_last() =~= all.take(i as int));
            assert(all.take(i + 1).last() == lines@[i as int]@);
        }
        let chars = chars_of(lines[i].as_str());
        let (start, end) = trim_bounds(&chars);
        if start < end {
            let name = string_of_range(&chars, start, end);
            let ghost before = games@;
            games.push(name);
            assert(strings_view(games@) =~= strings_view(before).push(name@));
        }
        i += 1;
    }
    assert(all.take(all.len() as int) =~= all);
    games
}

/// The page of `all_games` that `params` asks for.
pub fn get_games(all_games: &Vec<String>, params: PaginationParams) -> (r: GamesResponse)
    ensures
        strings_view(r.games@) == page_of(
            strings_view(all_games@),
            params.offset as nat,
            params.limit as nat,
        ),
        r.total == all_games@.len(),
        r.offset == params.offset,
        r.limit == params.limit,
{
    let total = all_games.len();
    let ghost newest_first = strings_view(all_games@).reverse();
    let mut games: Vec<String> = Vec::new();
    let count: usize = if params.offset >= total {
        0
    } else if params.limit >= total - params.offset {
        total - params.offset
    } else {
        params.limit
    };
    let mut k: usize = 0;
    while k < count
        invariant
            total == all_games@.len(),
            newest_first == strings_view(all_games@).reverse(),
            k <= count,
            count == 0 || params.offset + count <= total,
            games@.len() == k,
            forall|i: int| 0 <= i < k ==> (#[trigger] games@[i])@ == newest_first[params.offset + i],
        decreases count - k,
    {
        let place: usize = total - 1 - (params.offset + k);
        games.push(all_games[place].clone());
        assert(newest_first[params.offset + k] == all_games@[place as int]@);
        k += 1;
    }
    assert(strings_view(games@) =~= page_of(
        strings_view(all_games@),
        params.offset as nat,
        params.limit as nat,
    ));
    GamesResponse { games, total, offset: params.offset, limit: params.limit }
}

/// The values of a list of records, in order.
pub open spec fn records_view(v: Seq<GameData>) -> Seq<GameDataView> {
    Seq::new(v.len(), |i: int| v[i]@)
}

/// The place of the first record of the ROM `rom_name`, or the number of
/// records where there is none.
pub open spec fn record_index(records: Seq<GameDataView>, rom_name: Seq<char>) -> int
    decreases records.len(),
{
    if records.len() == 0 || records[0].rom_name == rom_name {
        0
    } else {
        1 + record_index(records.drop_first(), rom_name)
    }
}

/// A place before which no record is of the ROM and at which one is, or
/// which is the end, is the index of the record.
proof fn lemma_record_index_unique(records: Seq<GameDataView>, rom_name: Seq<char>, k: int)
    requires
        0 <= k <= records.len(),
        forall|i: int| 0 <= i < k ==> (#[trigger] records[i]).rom_name != rom_name,
        k < records.len() ==> records[k].rom_name == rom_name,
    ensures
        record_index(records, rom_name) == k,
    decreases records.len(),
{
    if records.len() == 0 {
    } else if records[0].rom_name == rom_name {
        if k > 0 {
            assert(records[0].rom_name != rom_name);
        }
    } else {
        let rest = records.drop_first();
        assert forall|i: int| 0 <= i < k - 1 implies (#[trigger] rest[i]).rom_name != rom_name by {
            assert(rest[i] == records[i + 1]);
        }
        if k - 1 < rest.len() {
            assert(rest[k - 1] == records[k]);
        }
        lemma_record_index_unique(rest, rom_name, k - 1);
    }
}

/// The first of `records` that is of the ROM `rom_name`, if there is one.
pub fn load_game_by_rom_name(records: &Vec<GameData>, rom_name: &str) -> (r: Option<GameData>)
    ensures
        opt_data_view(r) == if record_index(records_view(records@), rom_name@) < records@.len() {
            Some(records_view(records@)[record_index(records_view(records@), rom_name@)])
        } else {
            None
        },
{
    let ghost all = records_view(records@);
    let mut i: usize = 0;
    while i < records.len()
        invariant
            i <= records@.len(),
            all == records_view(records@),
            forall|k: int| 0 <= k < i ==> (#[trigger] all[k]).rom_name != rom_name@,
        decreases records@.len() - i,
    {
        assert(all[i as int] == records@[i as int]@);
        if same_text(records[i].rom_name.as_str(), rom_name) {
            proof {
                lemma_record_index_unique(all, rom_name@, i as int);
            }
            return Some(records[i].duplicate());
        }
        i += 1;
    }
    proof {
        lemma_record_index_unique(all, rom_name@, all.len() as int);
    }
    None
}

} // verus!

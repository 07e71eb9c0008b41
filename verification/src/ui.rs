//! What the game list shows and allows: the tags in a row's subtitle, which
//! rows a search and filter keep, a row's status, and which games the batch
//! actions touch.
use vstd::prelude::*;
use crate::text::{chars_of, contains, extend, push_decimal, decimal, str_contains, string_of};
use crate::scanner::{AppCategory, GameType, SteamGame};

verus! {

/// The colour and meaning of a row's status dot, and whether the row may be
/// patched.
#[derive(Debug, Clone, Copy, PartialEq, Eq, Structural)]
pub enum RowStatus {
    /// A system tool: shown in red, never patched.
    SystemTool,
    /// A game with anti-cheat: shown as a risk, may be patched.
    Risky,
    /// A game without anti-cheat: shown as safe, may be patched.
    Safe,
}

/// The subtitle tags of a game, in order.
pub open spec fn tags_of(g: SteamGame) -> Seq<Seq<char>> {
    let t0: Seq<Seq<char>> = Seq::empty();
    let t1 = if g.is_patched { t0.push("[Patched]"@) } else { t0 };
    let t2 = if g.dlc_list@.len() > 0 { t1.push("[DLC]"@) } else { t1 };
    let t3 = if g.has_anticheat { t2.push("[Anti-Cheat]"@) } else { t2 };
    if g.is_online_multiplayer { t3.push("[Online]"@) } else { t3 }
}

/// Texts joined with `sep` between them.
pub open spec fn joined(ts: Seq<Seq<char>>, sep: Seq<char>) -> Seq<char>
    decreases ts.len(),
{
    if ts.len() == 0 {
        Seq::empty()
    } else if ts.len() == 1 {
        ts[0]
    } else {
        joined(ts.drop_last(), sep) + sep + ts.last()
    }
}

/// The subtitle tags of a game: patched, has DLCs, has anti-cheat, online.
pub fn row_tags(game: &SteamGame) -> (r: Vec<&'static str>)
    ensures
        r@.map_values(|t: &str| t@) == tags_of(*game),
{
    let mut r: Vec<&'static str> = Vec::new();
    if game.is_patched {
        r.push("[Patched]");
    }
    if game.dlc_list.len() > 0 {
        r.push("[DLC]");
    }
    if game.has_anticheat {
        r.push("[Anti-Cheat]");
    }
    if game.is_online_multiplayer {
        r.push("[Online]");
    }
    assert(r@.map_values(|t: &str| t@) =~= tags_of(*game));
    r
}

/// The subtitle of a game's row: its folder, a space, and its tags
/// separated by spaces.
pub fn row_subtitle(game: &SteamGame) -> (r: String)
    ensures
        r@ == game.install_dir@ + seq![' '] + joined(tags_of(*game), seq![' ']),
{
    let tags = row_tags(game);
    let ghost ts = tags@.map_values(|t: &str| t@);
    let mut v = chars_of(game.install_dir.as_str());
    v.push(' ');
    let ghost head = v@;
    let mut i: usize = 0;
    assert(ts.take(0) =~= Seq::<Seq<char>>::empty());
    while i < tags.len()
        invariant
            i <= tags.len(),
            ts == tags@.map_values(|t: &str| t@),
            v@ == head + joined(ts.take(i as int), seq![' ']),
        decreases tags.len() - i,
    {
        let ghost before = v@;
        if i > 0 {
            v.push(' ');
        }
        extend(&mut v, &chars_of(tags[i]));
        assert(ts.take(i + 1).drop_last() =~= ts.take(i as int));
        assert(ts[i as int] == tags@[i as int]@);
        if i == 0 {
            assert(v@ =~= head + joined(ts.take(1), seq![' ']));
        } else {
            assert(v@ =~= before + seq![' '] + ts[i as int]);
        }
        i += 1;
    }
    assert(ts.take(tags.len() as int) =~= ts);
    string_of(&v)
}

/// Whether a row's subtitle fits the filter chosen in the drop-down:
/// 1 = with DLC, 2 = patched, 3 = anti-cheat or online, anything else = all.
pub open spec fn category_fits(selected: u32, subtitle: Seq<char>) -> bool {
    if selected == 1 {
        contains(subtitle, "[DLC]"@)
    } else if selected == 2 {
        contains(subtitle, "[Patched]"@)
    } else if selected == 3 {
        contains(subtitle, "[Anti-Cheat]"@) || contains(subtitle, "[Online]"@)
    } else {
        true
    }
}

/// Whether a row's subtitle fits the filter chosen in the drop-down.
pub fn category_matches(selected: u32, subtitle: &str) -> (r: bool)
    ensures
        r == category_fits(selected, subtitle@),
{
    if selected == 1 {
        str_contains(subtitle, "[DLC]")
    } else if selected == 2 {
        str_contains(subtitle, "[Patched]")
    } else if selected == 3 {
        str_contains(subtitle, "[Anti-Cheat]") || str_contains(subtitle, "[Online]")
    } else {
        true
    }
}

/// Whether a row stays visible: its lower-case title holds the lower-case
/// search text (any title does when the search is empty) and its subtitle
/// fits the filter.
pub fn row_visible(title_lower: &str, query_lower: &str, subtitle: &str, selected: u32) -> (r: bool)
    ensures
        r == ((query_lower@.len() == 0 || contains(title_lower@, query_lower@)) && category_fits(
            selected,
            subtitle@,
        )),
{
    let title_match = query_lower.is_empty() || str_contains(title_lower, query_lower);
    title_match && category_matches(selected, subtitle)
}

/// Whether a group of rows stays visible: some row in it is, or no search
/// and no filter is active.
pub fn group_visible(any_visible: bool, query_empty: bool, selected: u32) -> (r: bool)
    ensures
        r == (any_visible || (query_empty && selected == 0)),
{
    any_visible || (query_empty && selected == 0)
}

/// The status of a game's row.
pub fn row_status(game: &SteamGame) -> (r: RowStatus)
    ensures
        r == (if game.category == AppCategory::SystemTool {
            RowStatus::SystemTool
        } else if game.has_anticheat {
            RowStatus::Risky
        } else {
            RowStatus::Safe
        }),
{
    if game.category == AppCategory::SystemTool {
        RowStatus::SystemTool
    } else if game.has_anticheat {
        RowStatus::Risky
    } else {
        RowStatus::Safe
    }
}

/// Whether a row with this status may be patched.
pub fn can_patch(status: RowStatus) -> (r: bool)
    ensures
        r == (status != RowStatus::SystemTool),
{
    match status {
        RowStatus::SystemTool => false,
        _ => true,
    }
}

/// Whether "patch all" touches a game: not a system tool, no anti-cheat,
/// not online, not patched yet, and with binaries to patch.
pub fn batch_patch_eligible(game: &SteamGame) -> (r: bool)
    ensures
        r == (game.category != AppCategory::SystemTool && !game.has_anticheat
            && !game.is_online_multiplayer && !game.is_patched && game.targets@.len() > 0),
{
    game.category != AppCategory::SystemTool && !game.has_anticheat && !game.is_online_multiplayer
        && !game.is_patched && game.targets.len() > 0
}

/// Whether "restore all" touches a game: it is patched.
pub fn batch_restore_eligible(game: &SteamGame) -> (r: bool)
    ensures
        r == game.is_patched,
{
    game.is_patched
}

/// Whether the "copy launch options" button shows: the game is patched and
/// runs through Proton.
pub fn copy_button_visible(is_patched: bool, game_type: GameType) -> (r: bool)
    ensures
        r == (is_patched && game_type == GameType::Proton),
{
    is_patched && game_type == GameType::Proton
}

/// Ids in decimal, separated by `, `.
pub open spec fn listed_ids(ids: Seq<u32>) -> Seq<char>
    decreases ids.len(),
{
    if ids.len() == 0 {
        Seq::empty()
    } else if ids.len() == 1 {
        decimal(ids[0] as nat)
    } else {
        listed_ids(ids.drop_last()) + seq![',', ' '] + decimal(ids.last() as nat)
    }
}

/// The DLC line of a row: `None` without DLCs, else the ids separated by
/// `, `.
pub fn dlc_text(dlc_list: &Vec<u32>) -> (r: String)
    ensures
        dlc_list@.len() == 0 ==> r@ == "None"@,
        dlc_list@.len() > 0 ==> r@ == listed_ids(dlc_list@),
{
    if dlc_list.len() == 0 {
        return string_of(&chars_of("None"));
    }
    let mut v: Vec<char> = Vec::new();
    let mut i: usize = 0;
    assert(dlc_list@.take(0) =~= Seq::<u32>::empty());
    while i < dlc_list.len()
        invariant
            i <= dlc_list.len(),
            v@ == listed_ids(dlc_list@.take(i as int)),
        decreases dlc_list.len() - i,
    {
        let ghost before = v@;
        if i > 0 {
            v.push(',');
            v.push(' ');
        }
        push_decimal(&mut v, dlc_list[i]);
        assert(dlc_list@.take(i + 1).drop_last() =~= dlc_list@.take(i as int));
        if i == 0 {
            assert(v@ =~= listed_ids(dlc_list@.take(1)));
        } else {
            assert(v@ =~= before + seq![',', ' '] + decimal(dlc_list@[i as int] as nat));
        }
        i += 1;
    }
    assert(dlc_list@.take(dlc_list.len() as int) =~= dlc_list@);
    string_of(&v)
}

/// The store page of an app.
pub fn store_url(appid: &str) -> (r: String)
    ensures
        r@ == "https://store.steampowered.com/app/"@ + appid@,
{
    let mut v = chars_of("https://store.steampowered.com/app/");
    extend(&mut v, &chars_of(appid));
    string_of(&v)
}

/// The ProtonDB page of an app.
pub fn protondb_url(appid: &str) -> (r: String)
    ensures
        r@ == "https://www.protondb.com/app/"@ + appid@,
{
    let mut v = chars_of("https://www.protondb.com/app/");
    extend(&mut v, &chars_of(appid));
    string_of(&v)
}

} // verus!

//! The order of the per-menu action buttons in Menu Management. A stored
//! order may be old, malformed or incomplete; reading it always gives each of
//! the five known actions exactly once.

use vstd::prelude::*;
use crate::json::{string_list_from_text, string_list_or_empty};

verus! {

/// The five actions, in their default order.
pub open spec fn default_action_order() -> Seq<Seq<char>> {
    seq!["visibility"@, "period"@, "rename"@, "icon"@, "delete"@]
}

/// The stored text of the default order.
pub const DEFAULT_ACTION_ORDER_JSON: &'static str = "[\"visibility\",\"period\",\"rename\",\"icon\",\"delete\"]";

/// The known actions of `saved`, each at its first place, in saved order.
pub open spec fn known_unique_actions(saved: Seq<Seq<char>>) -> Seq<Seq<char>>
    decreases saved.len(),
{
    if saved.len() == 0 {
        Seq::empty()
    } else {
        let before = known_unique_actions(saved.drop_last());
        let item = saved.last();
        if default_action_order().contains(item) && !before.contains(item) {
            before.push(item)
        } else {
            before
        }
    }
}

/// The items of `defaults` that `kept` lacks, in the order of `defaults`.
pub open spec fn missing_actions(kept: Seq<Seq<char>>, defaults: Seq<Seq<char>>) -> Seq<Seq<char>>
    decreases defaults.len(),
{
    if defaults.len() == 0 {
        Seq::empty()
    } else {
        let before = missing_actions(kept, defaults.drop_last());
        if kept.contains(defaults.last()) {
            before
        } else {
            before.push(defaults.last())
        }
    }
}

/// A saved order made whole: the known saved actions in saved order, without
/// repeats, then every action that is missing, in default order.
pub open spec fn normalized_actions(saved: Seq<Seq<char>>) -> Seq<Seq<char>> {
    let kept = known_unique_actions(saved);
    kept + missing_actions(kept, default_action_order())
}

fn default_actions() -> (r: Vec<String>)
    ensures
        r.deep_view() == default_action_order(),
{
    let mut r: Vec<String> = Vec::new();
    r.push(String::from_str("visibility"));
    r.push(String::from_str("period"));
    r.push(String::from_str("rename"));
    r.push(String::from_str("icon"));
    r.push(String::from_str("delete"));
    assert(r.deep_view() =~= default_action_order());
    r
}

fn holds(items: &Vec<String>, item: &String) -> (r: bool)
    ensures
        r == items.deep_view().contains(item@),
{
    let mut i: usize = 0;
    while i < items.len()
        invariant
            i <= items.len(),
            forall|k: int| 0 <= k < i ==> items.deep_view()[k] != item@,
        decreases items.len() - i,
    {
        if items[i] == *item {
            assert(items.deep_view()[i as int] == item@);
            return true;
        }
        i = i + 1;
    }
    false
}

/// The saved list of actions made whole, as [`normalized_actions`] says.
pub fn normalize_action_items(saved: Vec<String>) -> (r: Vec<String>)
    ensures
        r.deep_view() == normalized_actions(saved.deep_view()),
{
    let defaults = default_actions();
    let mut kept: Vec<String> = Vec::new();
    let mut i: usize = 0;
    assert(saved.deep_view().take(0) =~= Seq::<Seq<char>>::empty());
    assert(kept.deep_view() =~= Seq::<Seq<char>>::empty());
    while i < saved.len()
        invariant
            i <= saved.len(),
            defaults.deep_view() == default_action_order(),
            kept.deep_view() == known_unique_actions(saved.deep_view().take(i as int)),
        decreases saved.len() - i,
    {
        let ghost prefix = saved.deep_view().take(i as int);
        assert(saved.deep_view().take(i + 1).drop_last() =~= prefix);
        assert(saved.deep_view().take(i + 1).last() == saved[i as int]@);
        let item = &saved[i];
        if holds(&defaults, item) && !holds(&kept, item) {
            kept.push(item.clone());
            assert(kept.deep_view() =~= known_unique_actions(prefix).push(item@));
        }
        i = i + 1;
    }
    assert(saved.deep_view().take(saved.len() as int) =~= saved.deep_view());
    let ghost known = kept.deep_view();
    let mut result = kept.clone();
    assert(result.deep_view() =~= known);
    let mut j: usize = 0;
    assert(default_action_order().take(0) =~= Seq::<Seq<char>>::empty());
    while j < defaults.len()
        invariant
            j <= defaults.len(),
            defaults.deep_view() == default_action_order(),
            kept.deep_view() == known,
            result.deep_view() == known + missing_actions(known, default_action_order().take(j as int)),
        decreases defaults.len() - j,
    {
        let ghost prefix = default_action_order().take(j as int);
        assert(default_action_order().take(j + 1).drop_last() =~= prefix);
        assert(default_action_order().take(j + 1).last() == defaults[j as int]@);
        let item = &defaults[j];
        if !holds(&kept, item) {
            let ghost before = result.deep_view();
            result.push(item.clone());
            assert(result.deep_view() =~= before.push(item@));
            assert(before.push(item@) =~= known + missing_actions(known, prefix).push(item@));
        }
        j = j + 1;
    }
    assert(default_action_order().take(5) =~= default_action_order());
    result
}

/// Reads a stored order of menu actions: a JSON list of action names, made
/// whole as [`normalized_actions`] says; text that is not a JSON list of
/// strings reads as the default order.
pub fn normalize_menu_action_order(value: &str) -> (r: Vec<String>)
    ensures
        r.deep_view() == normalized_actions(string_list_or_empty(value@)),
{
    normalize_action_items(string_list_from_text(value))
}

proof fn lemma_defaults_distinct()
    ensures
        default_action_order().no_duplicates(),
        default_action_order().len() == 5,
{
    reveal_strlit("visibility");
    reveal_strlit("period");
    reveal_strlit("rename");
    reveal_strlit("icon");
    reveal_strlit("delete");
    let d = default_action_order();
    assert forall|i: int, j: int| 0 <= i < d.len() && 0 <= j < d.len() && i != j implies d[i]
        != d[j] by {
        assert(d[i][0] != d[j][0]);
    }
}

proof fn lemma_known_unique(saved: Seq<Seq<char>>)
    ensures
        known_unique_actions(saved).no_duplicates(),
        forall|x: Seq<char>| #[trigger]
            known_unique_actions(saved).contains(x) ==> default_action_order().contains(x),
        forall|x: Seq<char>|
            saved.contains(x) && default_action_order().contains(x) ==> #[trigger] known_unique_actions(
                saved,
            ).contains(x),
    decreases saved.len(),
{
    if saved.len() > 0 {
        let rest = saved.drop_last();
        lemma_known_unique(rest);
        let before = known_unique_actions(rest);
        let item = saved.last();
        assert forall|x: Seq<char>| #[trigger]
            known_unique_actions(saved).contains(x) implies default_action_order().contains(x) by {
            if default_action_order().contains(item) && !before.contains(item) {
                let m = choose|m: int| 0 <= m < before.len() + 1 && before.push(item)[m] == x;
                if m < before.len() {
                    assert(before[m] == x);
                    assert(before.contains(x));
                }
            }
        }
        assert forall|x: Seq<char>|
            saved.contains(x) && default_action_order().contains(x) implies #[trigger] known_unique_actions(
                saved,
            ).contains(x) by {
            let k = choose|k: int| 0 <= k < saved.len() && saved[k] == x;
            if k < saved.len() - 1 {
                assert(rest[k] == x);
                assert(rest.contains(x));
            }
            if before.contains(x) {
                let m = choose|m: int| 0 <= m < before.len() && before[m] == x;
                if default_action_order().contains(item) && !before.contains(item) {
                    assert(before.push(item)[m] == x);
                }
            } else {
                assert(x == item);
                assert(before.push(item)[before.len() as int] == x);
            }
        }
    }
}

proof fn lemma_missing(kept: Seq<Seq<char>>, defaults: Seq<Seq<char>>)
    ensures
        forall|x: Seq<char>| #[trigger]
            missing_actions(kept, defaults).contains(x) <==> (defaults.contains(x) && !kept.contains(x)),
        defaults.no_duplicates() ==> missing_actions(kept, defaults).no_duplicates(),
    decreases defaults.len(),
{
    if defaults.len() > 0 {
        let rest = defaults.drop_last();
        lemma_missing(kept, rest);
        let before = missing_actions(kept, rest);
        let item = defaults.last();
        assert forall|x: Seq<char>| #[trigger]
            missing_actions(kept, defaults).contains(x) <==> (defaults.contains(x) && !kept.contains(x)) by {
            if defaults.contains(x) {
                let k = choose|k: int| 0 <= k < defaults.len() && defaults[k] == x;
                if k < defaults.len() - 1 {
                    assert(rest[k] == x);
                }
            }
            if rest.contains(x) {
                let k = choose|k: int| 0 <= k < rest.len() && rest[k] == x;
                assert(defaults[k] == x);
            }
            if before.contains(x) {
                let m = choose|m: int| 0 <= m < before.len() && before[m] == x;
                if !kept.contains(item) {
                    assert(before.push(item)[m] == x);
                }
            }
            if !kept.contains(item) && x == item {
                assert(before.push(item)[before.len() as int] == x);
                assert(defaults[defaults.len() - 1] == x);
            }
        }
        if defaults.no_duplicates() {
            assert(rest.no_duplicates());
            if !kept.contains(item) {
                assert(!rest.contains(item));
                assert(!before.contains(item));
            }
        }
    }
}

/// However a stored order reads, the order that comes out names each of the
/// five known actions exactly once and nothing else.
pub proof fn lemma_normalized_actions_are_the_defaults(saved: Seq<Seq<char>>)
    ensures
        normalized_actions(saved).len() == 5,
        normalized_actions(saved).no_duplicates(),
        forall|x: Seq<char>| #[trigger]
            normalized_actions(saved).contains(x) <==> default_action_order().contains(x),
{
    lemma_defaults_distinct();
    let kept = known_unique_actions(saved);
    let missing = missing_actions(kept, default_action_order());
    let r = normalized_actions(saved);
    lemma_known_unique(saved);
    lemma_missing(kept, default_action_order());
    assert forall|x: Seq<char>| #[trigger] r.contains(x) <==> default_action_order().contains(x) by {
        if r.contains(x) {
            let k = choose|k: int| 0 <= k < r.len() && r[k] == x;
            if k < kept.len() {
                assert(kept[k] == x);
                assert(kept.contains(x));
            } else {
                assert(missing[k - kept.len()] == x);
                assert(missing.contains(x));
            }
        }
        if default_action_order().contains(x) {
            if kept.contains(x) {
                let k = choose|k: int| 0 <= k < kept.len() && kept[k] == x;
                assert(r[k] == x);
            } else {
                assert(missing.contains(x));
                let k = choose|k: int| 0 <= k < missing.len() && missing[k] == x;
                assert(r[kept.len() + k] == x);
            }
        }
    }
    assert forall|i: int, j: int| 0 <= i < r.len() && 0 <= j < r.len() && i != j implies r[i]
        != r[j] by {
        if i < kept.len() && j >= kept.len() {
            assert(kept.contains(r[i]));
            assert(missing.contains(missing[j - kept.len()]));
        } else if j < kept.len() && i >= kept.len() {
            assert(kept.contains(r[j]));
            assert(missing.contains(missing[i - kept.len()]));
        }
    }
    r.unique_seq_to_set();
    default_action_order().unique_seq_to_set();
    assert(r.to_set() =~= default_action_order().to_set());
}

/// A stored order that already names each known action once, and nothing
/// else, is read back as it is.
pub proof fn lemma_whole_order_is_kept(saved: Seq<Seq<char>>)
    requires
        saved.no_duplicates(),
        forall|x: Seq<char>| #[trigger] saved.contains(x) <==> default_action_order().contains(x),
    ensures
        normalized_actions(saved) == saved,
{
    lemma_known_unique_of_whole(saved);
    lemma_nothing_missing(saved, default_action_order());
    assert(normalized_actions(saved) =~= saved);
}

proof fn lemma_known_unique_of_whole(saved: Seq<Seq<char>>)
    requires
        saved.no_duplicates(),
        forall|x: Seq<char>| #[trigger] saved.contains(x) ==> default_action_order().contains(x),
    ensures
        known_unique_actions(saved) == saved,
    decreases saved.len(),
{
    if saved.len() > 0 {
        let rest = saved.drop_last();
        assert forall|x: Seq<char>| #[trigger] rest.contains(x) implies default_action_order().contains(x) by {
            let k = choose|k: int| 0 <= k < rest.len() && rest[k] == x;
            assert(saved[k] == x);
            assert(saved.contains(x));
        }
        lemma_known_unique_of_whole(rest);
        assert(saved[saved.len() - 1] == saved.last());
        assert(saved.contains(saved.last()));
        assert(!rest.contains(saved.last()));
        assert(rest.push(saved.last()) =~= saved);
    }
}

proof fn lemma_nothing_missing(kept: Seq<Seq<char>>, defaults: Seq<Seq<char>>)
    requires
        forall|x: Seq<char>| #[trigger] defaults.contains(x) ==> kept.contains(x),
    ensures
        missing_actions(kept, defaults) == Seq::<Seq<char>>::empty(),
    decreases defaults.len(),
{
    if defaults.len() > 0 {
        let rest = defaults.drop_last();
        assert forall|x: Seq<char>| #[trigger] rest.contains(x) implies kept.contains(x) by {
            let k = choose|k: int| 0 <= k < rest.len() && rest[k] == x;
            assert(defaults[k] == x);
            assert(defaults.contains(x));
        }
        lemma_nothing_missing(kept, rest);
        assert(defaults[defaults.len() - 1] == defaults.last());
        assert(defaults.contains(defaults.last()));
    }
}

/// Reading an order that was itself read back changes nothing.
pub proof fn lemma_normalizing_twice(saved: Seq<Seq<char>>)
    ensures
        normalized_actions(normalized_actions(saved)) == normalized_actions(saved),
{
    lemma_normalized_actions_are_the_defaults(saved);
    lemma_whole_order_is_kept(normalized_actions(saved));
}

} // verus!

//! Which scripts are strategies, and which file changes restart them.

use vstd::prelude::*;
use vstd::string::*;

verus! {

/// `s` ends in `suffix`.
pub open spec fn has_suffix(s: Seq<char>, suffix: Seq<char>) -> bool {
    s.len() >= suffix.len() && s.subrange(s.len() - suffix.len(), s.len() as int) == suffix
}

/// Whether `s` ends in `suffix`.
pub fn ends_with(s: &str, suffix: &str) -> (yes: bool)
    ensures
        yes == has_suffix(s@, suffix@),
{
    let n: usize = s.unicode_len();
    let k: usize = suffix.unicode_len();
    if n < k {
        return false;
    }
    let tail = String::from_str(s.substring_char(n - k, n));
    let wanted = String::from_str(suffix);
    tail == wanted
}

/// Whether `c` occurs in `s`.
pub fn contains_char(s: &str, c: char) -> (yes: bool)
    ensures
        yes == s@.contains(c),
{
    let n: usize = s.unicode_len();
    let mut i: usize = 0;
    while i < n
        invariant
            i <= n,
            n == s@.len(),
            forall|j: int| 0 <= j < i ==> s@[j] != c,
        decreases n - i,
    {
        if s.get_char(i) == c {
            return true;
        }
        i += 1;
    }
    false
}

/// The name of the self-test script, which is no strategy.
pub open spec fn self_test() -> Seq<char> {
    seq!['t', 'e', 's', 't']
}

/// Whether a script name is that of the self-test.
pub fn is_self_test(name: &str) -> (yes: bool)
    ensures
        yes == (name@ == self_test()),
{
    proof {
        reveal_strlit("test");
        assert("test"@ =~= self_test());
    }
    let given = String::from_str(name);
    let reserved = String::from_str("test");
    given == reserved
}

/// A script is a strategy unless it is the self-test or its name holds a dot.
pub open spec fn is_strategy(name: Seq<char>) -> bool {
    name != self_test() && !name.contains('.')
}

/// The strategies among `names`, in order.
pub open spec fn strategies_among(names: Seq<Seq<char>>) -> Seq<Seq<char>>
    decreases names.len(),
{
    if names.len() == 0 {
        Seq::empty()
    } else if is_strategy(names.last()) {
        strategies_among(names.drop_last()).push(names.last())
    } else {
        strategies_among(names.drop_last())
    }
}

/// What a list of names says.
pub open spec fn name_views(names: Seq<String>) -> Seq<Seq<char>> {
    names.map_values(|n: String| n@)
}

/// Picks the strategies among the names of the scripts that were found.
pub fn list_strategies(names: &Vec<String>) -> (strategies: Vec<String>)
    ensures
        name_views(strategies@) == strategies_among(name_views(names@)),
{
    let mut strategies: Vec<String> = Vec::new();
    let ghost all = name_views(names@);
    let mut i: usize = 0;
    assert(all.subrange(0, 0) =~= Seq::empty());
    assert(name_views(strategies@) =~= Seq::empty());
    while i < names.len()
        invariant
            i <= names.len(),
            all == name_views(names@),
            name_views(strategies@) == strategies_among(all.subrange(0, i as int)),
        decreases names.len() - i,
    {
        let ghost next = all.subrange(0, i + 1);
        assert(next.drop_last() =~= all.subrange(0, i as int));
        assert(next.last() == names@[i as int]@);
        let name = names[i].as_str();
        if !is_self_test(name) && !contains_char(name, '.') {
            let ghost before = name_views(strategies@);
            strategies.push(names[i].clone());
            assert(name_views(strategies@) =~= before.push(names@[i as int]@));
        }
        i += 1;
    }
    assert(all.subrange(0, i as int) =~= all);
    strategies
}

/// What happened to a watched file.
#[derive(Clone, Copy, Debug, PartialEq, Eq, Structural)]
pub enum ChangeKind {
    Create,
    Modify,
    Remove,
    /// Anything else, such as a read.
    Other,
}

/// The ending of a script file's name.
pub open spec fn script_ending() -> Seq<char> {
    seq!['.', 'l', 'u', 'a']
}

/// A change restarts the scripts when a file was created, modified or
/// removed and one of the paths it names is a script's.
pub open spec fn restarts(kind: ChangeKind, paths: Seq<Seq<char>>) -> bool {
    kind != ChangeKind::Other && exists|i: int|
        0 <= i < paths.len() && has_suffix(#[trigger] paths[i], script_ending())
}

/// Whether a change to the watched files restarts the scripts.
pub fn should_restart(kind: ChangeKind, paths: &Vec<String>) -> (restart: bool)
    ensures
        restart == restarts(kind, name_views(paths@)),
{
    proof {
        reveal_strlit(".lua");
        assert(".lua"@ =~= script_ending());
    }
    match kind {
        ChangeKind::Other => {
            return false;
        },
        _ => {},
    }
    let ghost all = name_views(paths@);
    let mut i: usize = 0;
    while i < paths.len()
        invariant
            i <= paths.len(),
            all == name_views(paths@),
            kind != ChangeKind::Other,
            ".lua"@ == script_ending(),
            forall|j: int| 0 <= j < i ==> !has_suffix(#[trigger] all[j], script_ending()),
        decreases paths.len() - i,
    {
        assert(all[i as int] == paths@[i as int]@);
        if ends_with(paths[i].as_str(), ".lua") {
            return true;
        }
        i += 1;
    }
    false
}

/// Whether a script name can label a metric: it is not empty and is ASCII.
pub fn is_metric_label(name: &str) -> (yes: bool)
    ensures
        yes == (name@.len() > 0 && is_ascii(name)),
{
    !name.is_empty() && name.is_ascii()
}

} // verus!

//! Picker-wide preferences and the most-recent-first list of repositories
//! offered by the repo picker. Reading and writing the file is the caller's
//! business; this module holds the values and the rules that change them.

use crate::text;
use vstd::prelude::*;

verus! {

/// How many `owner/repo` targets the recent list keeps.
pub const MAX_RECENT_REPOS: usize = 8;

#[derive(Debug, Clone, PartialEq, Eq)]
pub struct Config {
    pub exit_on_copy_yank: bool,
    pub zebra_striping: bool,
    pub shortcuts_on_demand: bool,
    pub recent_repos: Vec<String>,
}

impl Default for Config {
    fn default() -> (c: Config)
        ensures
            !c.exit_on_copy_yank,
            c.zebra_striping,
            !c.shortcuts_on_demand,
            c.recent_repos@.len() == 0,
    {
        Config {
            exit_on_copy_yank: false,
            zebra_striping: true,
            shortcuts_on_demand: false,
            recent_repos: Vec::new(),
        }
    }
}

/// `list` with every occurrence of `x` removed, order kept.
pub open spec fn without(list: Seq<Seq<char>>, x: Seq<char>) -> Seq<Seq<char>>
    decreases list.len(),
{
    if list.len() == 0 {
        seq![]
    } else if list.last() == x {
        without(list.drop_last(), x)
    } else {
        without(list.drop_last(), x).push(list.last())
    }
}

/// The first `n` entries of `list` (all of them when there are fewer).
pub open spec fn cap(list: Seq<Seq<char>>, n: nat) -> Seq<Seq<char>> {
    if list.len() <= n {
        list
    } else {
        list.take(n as int)
    }
}

/// The recent list after `repo` is remembered: `repo` first, then the other
/// entries in their old order, at most `MAX_RECENT_REPOS` in all.
pub open spec fn remembered(list: Seq<Seq<char>>, repo: Seq<char>) -> Seq<Seq<char>> {
    cap(seq![repo] + without(list, repo), MAX_RECENT_REPOS as nat)
}

proof fn lemma_without(list: Seq<Seq<char>>, x: Seq<char>)
    ensures
        without(list, x).len() <= list.len(),
        !without(list, x).contains(x),
        forall|y: Seq<char>| y != x ==> (without(list, x).contains(y) <==> list.contains(y)),
        list.no_duplicates() ==> without(list, x).no_duplicates(),
        !list.contains(x) ==> without(list, x) == list,
    decreases list.len(),
{
    broadcast use vstd::seq_lib::group_seq_properties;

    if list.len() > 0 {
        let pre = list.drop_last();
        let last = list.last();
        lemma_without(pre, x);
        assert(list =~= pre.push(last));
        let w = without(list, x);
        let wp = without(pre, x);
        if last == x {
            assert(w == wp);
        } else {
            assert(w == wp.push(last));
        }
        assert forall|y: Seq<char>| y != x implies (w.contains(y) <==> list.contains(y)) by {
            assert(wp.contains(y) <==> pre.contains(y));
        }
        if list.no_duplicates() && last != x {
            assert(!pre.contains(last));
            assert(!wp.contains(last));
        }
    }
}

/// Remembering a repository puts it first, keeps it there once, keeps the
/// list within `MAX_RECENT_REPOS`, and adds nothing but the repository.
pub proof fn lemma_remembered(list: Seq<Seq<char>>, repo: Seq<char>)
    ensures
        remembered(list, repo).len() >= 1,
        remembered(list, repo)[0] == repo,
        remembered(list, repo).len() <= MAX_RECENT_REPOS,
        forall|i: int| 1 <= i < remembered(list, repo).len() ==> #[trigger] remembered(list, repo)[i] != repo,
        forall|y: Seq<char>| #[trigger] remembered(list, repo).contains(y) ==> y == repo || list.contains(y),
        list.no_duplicates() ==> remembered(list, repo).no_duplicates(),
{
    lemma_without(list, repo);
    let full = seq![repo] + without(list, repo);
    let r = remembered(list, repo);
    assert(r[0] == repo);
    assert forall|i: int| 1 <= i < r.len() implies #[trigger] r[i] != repo by {
        assert(r[i] == without(list, repo)[i - 1]);
    }
    assert forall|y: Seq<char>| #[trigger] r.contains(y) implies y == repo || list.contains(y) by {
        let k = choose|k: int| 0 <= k < r.len() && r[k] == y;
        if k > 0 {
            assert(without(list, repo)[k - 1] == y);
            assert(without(list, repo).contains(y));
        }
    }
    if list.no_duplicates() {
        assert forall|i: int, j: int| 0 <= i < r.len() && 0 <= j < r.len() && i != j implies r[i] != r[j] by {
            if i > 0 && j > 0 {
                assert(r[i] == without(list, repo)[i - 1]);
                assert(r[j] == without(list, repo)[j - 1]);
            }
        }
    }
}

/// Remembering the same repository twice in a row is remembering it once.
/// `without` keeps, in order, exactly the entries other than `x`.
proof fn lemma_without_is_filter(list: Seq<Seq<char>>, x: Seq<char>)
    ensures
        without(list, x) == list.filter(|y: Seq<char>| y != x),
    decreases list.len(),
{
    reveal(Seq::filter);
    if list.len() > 0 {
        lemma_without_is_filter(list.drop_last(), x);
    }
}

/// Remembering `repo` puts it first and keeps the other entries after it in
/// their old order, dropping from the end only what does not fit: the list
/// is `repo` followed by the first entries of the old list without `repo`,
/// as many as fit in `MAX_RECENT_REPOS` in all.
pub proof fn lemma_remember_keeps_the_most_recent(list: Seq<Seq<char>>, repo: Seq<char>)
    ensures
        ({
            let r = remembered(list, repo);
            let others = list.filter(|y: Seq<char>| y != repo);
            &&& r.len() == if others.len() + 1 <= MAX_RECENT_REPOS {
                others.len() + 1 as int
            } else {
                MAX_RECENT_REPOS as int
            }
            &&& r[0] == repo
            &&& forall|i: int| 1 <= i < r.len() ==> #[trigger] r[i] == others[i - 1]
        }),
{
    lemma_without_is_filter(list, repo);
}

pub proof fn lemma_remember_idempotent(list: Seq<Seq<char>>, repo: Seq<char>)
    ensures
        remembered(remembered(list, repo), repo) == remembered(list, repo),
{
    let r = remembered(list, repo);
    lemma_remembered(list, repo);
    let rest = r.drop_first();
    assert(!rest.contains(repo)) by {
        if rest.contains(repo) {
            let k = choose|k: int| 0 <= k < rest.len() && rest[k] == repo;
            assert(r[k + 1] == repo);
        }
    }
    lemma_without(rest, repo);
    lemma_without(r, repo);
    assert(r =~= seq![repo] + rest);
    lemma_without_prefix(repo, rest);
    assert(seq![repo] + without(r, repo) =~= r);
}

proof fn lemma_without_prefix(x: Seq<char>, rest: Seq<Seq<char>>)
    requires
        !rest.contains(x),
    ensures
        without(seq![x] + rest, x) == rest,
    decreases rest.len(),
{
    if rest.len() == 0 {
        assert(seq![x] + rest =~= seq![x]);
        assert(seq![x].drop_last() =~= Seq::<Seq<char>>::empty());
        assert(without(seq![x], x) == without(seq![x].drop_last(), x));
    } else {
        let pre = rest.drop_last();
        assert(!pre.contains(x)) by {
            if pre.contains(x) {
                let j = choose|j: int| 0 <= j < pre.len() && pre[j] == x;
                assert(rest[j] == x);
            }
        }
        lemma_without_prefix(x, pre);
        let whole = seq![x] + rest;
        assert(whole.drop_last() =~= seq![x] + pre);
        assert(whole.last() == rest.last());
        assert(without(whole, x) == without(whole.drop_last(), x).push(whole.last()));
        assert(rest.last() != x) by {
            assert(rest[rest.len() - 1] == rest.last());
        }
        assert(rest =~= pre.push(rest.last()));
    }
}

/// The directory the preferences file lives under.
#[derive(Debug, Clone, Copy, PartialEq, Eq, Structural)]
pub enum ConfigBase {
    /// The config directory setting (`boomerang/config.toml` below it).
    ConfigHome,
    /// The home directory (`.config/boomerang/config.toml` below it).
    Home,
}

/// The config directory setting when it is present and not empty, the home
/// directory otherwise.
pub fn config_base(config_home: Option<&str>) -> (r: ConfigBase)
    ensures
        r == (match config_home {
            Some(h) => if h@.len() > 0 {
                ConfigBase::ConfigHome
            } else {
                ConfigBase::Home
            },
            None => ConfigBase::Home,
        }),
{
    match config_home {
        Some(h) => if text::chars_of(h).len() > 0 {
            ConfigBase::ConfigHome
        } else {
            ConfigBase::Home
        },
        None => ConfigBase::Home,
    }
}

impl ConfigBase {
    /// The preferences file's path below the base directory.
    pub fn file_below(self) -> (r: &'static str)
        ensures
            r@ == match self {
                ConfigBase::ConfigHome => "boomerang/config.toml"@,
                ConfigBase::Home => ".config/boomerang/config.toml"@,
            },
    {
        match self {
            ConfigBase::ConfigHome => "boomerang/config.toml",
            ConfigBase::Home => ".config/boomerang/config.toml",
        }
    }
}

impl Config {
    /// Moves `repo` to the front of the recent-repos list, deduplicating any
    /// existing entry and capping the list at `MAX_RECENT_REPOS`.
    pub fn remember_repo(&mut self, repo: &str)
        ensures
            text::strs_of(final(self).recent_repos@) == remembered(
                text::strs_of(old(self).recent_repos@),
                repo@,
            ),
            final(self).exit_on_copy_yank == old(self).exit_on_copy_yank,
            final(self).zebra_striping == old(self).zebra_striping,
            final(self).shortcuts_on_demand == old(self).shortcuts_on_demand,
    {
        let target = text::owned(repo);
        let ghost old_list = text::strs_of(self.recent_repos@);
        let mut kept: Vec<String> = Vec::new();
        kept.push(target.clone());
        let mut i: usize = 0;
        while i < self.recent_repos.len()
            invariant
                i <= self.recent_repos.len(),
                target@ == repo@,
                old_list == text::strs_of(self.recent_repos@),
                text::strs_of(kept@) == seq![repo@] + without(old_list.take(i as int), repo@),
            decreases self.recent_repos.len() - i,
        {
            let ghost before = text::strs_of(kept@);
            let ghost pre = old_list.take(i as int);
            assert(old_list.take(i + 1).drop_last() =~= pre);
            assert(old_list.take(i + 1).last() == self.recent_repos@[i as int]@);
            if self.recent_repos[i] != target {
                let e = self.recent_repos[i].clone();
                kept.push(e);
                assert(text::strs_of(kept@) =~= before.push(e@));
            }
            i = i + 1;
        }
        assert(old_list.take(old_list.len() as int) =~= old_list);
        if kept.len() > MAX_RECENT_REPOS {
            kept.truncate(MAX_RECENT_REPOS);
            assert(text::strs_of(kept@) =~= remembered(old_list, repo@));
        }
        self.recent_repos = kept;
    }
}

} // verus!

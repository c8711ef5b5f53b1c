//! Per-module severity overrides.
//!
//! A [`ModuleFilter`] maps module-path prefixes to minimum severities. It
//! is built incrementally, kept sorted by descending prefix length so the
//! most specific override wins, and must be finalized before resolution.
//! Among distinct prefixes of equal length at most one can match a given
//! module path (two equal-length prefixes of the same path are the same
//! prefix), so resolution depends only on the registered mapping.

use vstd::prelude::*;
use vstd::string::*;

use crate::level::Level;
use crate::level::LevelFilter;
use crate::level::filter_rank;
use crate::level::level_rank;
use crate::level::passes;

verus! {

/// `p` is a prefix of `s`, character by character.
pub open spec fn is_prefix_of(p: Seq<char>, s: Seq<char>) -> bool {
    p.len() <= s.len() && p == s.subrange(0, p.len() as int)
}

/// The (prefix, threshold) pairs of a filter entry list, by value.
pub open spec fn entries_view(s: Seq<(String, LevelFilter)>) -> Seq<(Seq<char>, LevelFilter)> {
    s.map_values(|e: (String, LevelFilter)| (e.0@, e.1))
}

/// Threshold of the first entry whose prefix is a prefix of `module`,
/// scanning in order.
pub open spec fn first_match(
    entries: Seq<(Seq<char>, LevelFilter)>,
    module: Seq<char>,
) -> Option<LevelFilter>
    decreases entries.len(),
{
    if entries.len() == 0 {
        None
    } else if is_prefix_of(entries[0].0, module) {
        Some(entries[0].1)
    } else {
        first_match(entries.drop_first(), module)
    }
}

/// Threshold registered for exactly the prefix `key`, if any.
pub open spec fn lookup(
    entries: Seq<(Seq<char>, LevelFilter)>,
    key: Seq<char>,
) -> Option<LevelFilter>
    decreases entries.len(),
{
    if entries.len() == 0 {
        None
    } else if entries[0].0 == key {
        Some(entries[0].1)
    } else {
        lookup(entries.drop_first(), key)
    }
}

/// Prefixes appear longest first.
pub open spec fn sorted_by_len(entries: Seq<(Seq<char>, LevelFilter)>) -> bool {
    forall|i: int, j: int|
        0 <= i < j < entries.len() ==> #[trigger] entries[i].0.len() >= #[trigger] entries[j].0.len()
}

/// No prefix appears twice.
pub open spec fn distinct_keys(entries: Seq<(Seq<char>, LevelFilter)>) -> bool {
    forall|i: int, j: int|
        0 <= i < j < entries.len() ==> #[trigger] entries[i].0 != #[trigger] entries[j].0
}

/// Mapping from module-path prefix to a minimum severity. Built
/// incrementally; finalization locks it for the rest of its life. The
/// entries are held sorted by descending prefix length throughout, so the
/// most specific (longest) matching prefix always wins at resolution.
pub struct ModuleFilter {
    entries: Vec<(String, LevelFilter)>,
    finalized: bool,
}

impl ModuleFilter {
    /// The registered (prefix, threshold) pairs, most specific first.
    pub closed spec fn entries(&self) -> Seq<(Seq<char>, LevelFilter)> {
        entries_view(self.entries@)
    }

    /// Whether `finalize` has been called.
    pub closed spec fn is_finalized(&self) -> bool {
        self.finalized
    }

    /// Well-formed: entries sorted longest-prefix-first, prefixes distinct.
    pub open spec fn wf(&self) -> bool {
        sorted_by_len(self.entries()) && distinct_keys(self.entries())
    }

    /// The threshold that applies to `module`: that of the most specific
    /// matching override, and where none matches, `Off` under explicit
    /// mode (only modules with an override may log) or else the global
    /// threshold.
    pub open spec fn effective(
        &self,
        module: Seq<char>,
        global: LevelFilter,
        explicit: bool,
    ) -> LevelFilter {
        match first_match(self.entries(), module) {
            Some(l) => l,
            None => if explicit {
                LevelFilter::Off
            } else {
                global
            },
        }
    }

    /// An empty, not yet finalized filter.
    pub fn new() -> (r: ModuleFilter)
        ensures
            r.entries().len() == 0,
            !r.is_finalized(),
            r.wf(),
    {
        ModuleFilter { entries: Vec::new(), finalized: false }
    }

    /// Register a minimum severity for a module-path prefix. A prefix
    /// registered twice keeps only the later threshold.
    pub fn insert(&mut self, module: String, level: LevelFilter)
        requires
            old(self).wf(),
            !old(self).is_finalized(),
        ensures
            final(self).wf(),
            !final(self).is_finalized(),
            lookup(final(self).entries(), module@) == Some(level),
            forall|k: Seq<char>|
                k != module@ ==> #[trigger] lookup(final(self).entries(), k) == lookup(
                    old(self).entries(),
                    k,
                ),
    {
        // replace in place if the prefix is already registered
        let mut i: usize = 0;
        while i < self.entries.len()
            invariant
                self.wf(),
                !self.is_finalized(),
                i <= self.entries@.len(),
                self == old(self),
                forall|j: int| 0 <= j < i ==> #[trigger] self.entries()[j].0 != module@,
            decreases self.entries@.len() - i,
        {
            if self.entries[i].0.eq(&module) {
                proof {
                    assert(old(self).entries()[i as int].0 == module@);
                }
                let e = &mut self.entries[i];
                *e = (module, level);
                proof {
                    lemma_lookup_update(old(self).entries(), i as int, module@, level);
                    assert(self.entries() =~= old(self).entries().update(
                        i as int,
                        (module@, level),
                    ));
                    assert forall|x: int| 0 <= x < self.entries().len() implies #[trigger] self.entries()[x].0
                        == old(self).entries()[x].0 by {
                        assert(self.entries()[x] == old(self).entries().update(
                            i as int,
                            (module@, level),
                        )[x]);
                    }
                    assert forall|a: int, b: int|
                        0 <= a < b < self.entries().len() implies self.entries()[a].0.len()
                        >= self.entries()[b].0.len() by {
                        assert(old(self).entries()[a].0.len() >= old(self).entries()[b].0.len());
                    }
                    assert forall|a: int, b: int|
                        0 <= a < b < self.entries().len() implies self.entries()[a].0 != self.entries()[b].0 by {
                        assert(old(self).entries()[a].0 != old(self).entries()[b].0);
                    }
                }
                return ;
            }
            i = i + 1;
        }
        // otherwise insert after every prefix at least as long
        let target = module.as_str().unicode_len();
        let mut k: usize = 0;
        while k < self.entries.len() && target <= self.entries[k].0.as_str().unicode_len()
            invariant
                self == old(self),
                k <= self.entries@.len(),
                target == module@.len(),
                forall|j: int| 0 <= j < k ==> #[trigger] self.entries()[j].0.len() >= module@.len(),
            decreases self.entries@.len() - k,
        {
            k = k + 1;
        }
        proof {
            assert forall|j: int|
                k <= j < self.entries().len() implies #[trigger] self.entries()[j].0.len()
                < module@.len() by {
                if j > k {
                    assert(self.entries()[k as int].0.len() >= self.entries()[j].0.len());
                }
            }
            lemma_lookup_insert(old(self).entries(), k as int, module@, level);
        }
        let ghost pre = self.entries();
        self.entries.insert(k, (module, level));
        proof {
            assert(self.entries() =~= pre.insert(k as int, (module@, level)));
            assert forall|a: int, b: int|
                0 <= a < b < self.entries().len() implies self.entries()[a].0.len()
                >= self.entries()[b].0.len() by {
                if b < k {
                    assert(pre[a].0.len() >= pre[b].0.len());
                } else if a > k {
                    assert(pre[a - 1].0.len() >= pre[b - 1].0.len());
                } else if a < k && b > k {
                    assert(pre[a].0.len() >= module@.len());
                    assert(module@.len() > pre[b - 1].0.len());
                } else if a == k {
                    assert(module@.len() > pre[b - 1].0.len());
                } else {
                    assert(b == k);
                    assert(pre[a].0.len() >= module@.len());
                }
            }
            assert forall|a: int, b: int|
                0 <= a < b < self.entries().len() implies self.entries()[a].0 != self.entries()[b].0 by {
                if b < k {
                    assert(pre[a].0 != pre[b].0);
                } else if a > k {
                    assert(pre[a - 1].0 != pre[b - 1].0);
                } else if a < k && b > k {
                    assert(pre[a].0 != pre[b - 1].0);
                } else if a == k {
                    assert(pre[b - 1].0 != module@);
                } else {
                    assert(b == k);
                    assert(pre[a].0 != module@);
                }
            }
        }
    }

    /// Lock the filter: after this, resolution may be used and no further
    /// registration is accepted.
    pub fn finalize(&mut self)
        ensures
            final(self).is_finalized(),
            final(self).entries() == old(self).entries(),
    {
        self.finalized = true;
    }

    /// The effective threshold for `module` under the global threshold
    /// and the explicit-mode flag.
    pub fn resolve(&self, module: &str, global: LevelFilter, explicit: bool) -> (r: LevelFilter)
        requires
            self.is_finalized(),
        ensures
            r == self.effective(module@, global, explicit),
    {
        proof {
            assert(self.entries().skip(0) =~= self.entries());
        }
        let n = self.entries.len();
        let mut i: usize = 0;
        while i < n
            invariant
                n == self.entries@.len(),
                i <= n,
                first_match(self.entries(), module@) == first_match(
                    self.entries().skip(i as int),
                    module@,
                ),
            decreases n - i,
        {
            proof {
                assert(self.entries().skip(i as int)[0] == self.entries()[i as int]);
                assert(self.entries().skip(i as int).drop_first() =~= self.entries().skip(
                    i as int + 1,
                ));
            }
            if str_is_prefix(self.entries[i].0.as_str(), module) {
                return self.entries[i].1;
            }
            i = i + 1;
        }
        proof {
            assert(self.entries().skip(n as int) =~= Seq::<(Seq<char>, LevelFilter)>::empty());
        }
        if explicit {
            LevelFilter::Off
        } else {
            global
        }
    }
}

/// Whether `prefix` is a prefix of `s`.
fn str_is_prefix(prefix: &str, s: &str) -> (r: bool)
    ensures
        r == is_prefix_of(prefix@, s@),
{
    let plen = prefix.unicode_len();
    let slen = s.unicode_len();
    if plen > slen {
        return false;
    }
    let mut i: usize = 0;
    while i < plen
        invariant
            plen == prefix@.len(),
            slen == s@.len(),
            plen <= slen,
            i <= plen,
            forall|j: int| 0 <= j < i ==> prefix@[j] == s@[j],
        decreases plen - i,
    {
        if prefix.get_char(i) != s.get_char(i) {
            proof {
                assert(prefix@[i as int] != s@.subrange(0, plen as int)[i as int]);
            }
            return false;
        }
        i = i + 1;
    }
    proof {
        assert(prefix@ =~= s@.subrange(0, plen as int));
    }
    true
}

/// LAW: the most specific override wins. If the prefix of entry `i` is a
/// prefix of `module` and no registered prefix of `module` is longer,
/// resolution yields entry `i`'s threshold, whatever the global threshold
/// and the explicit flag are.
pub proof fn lemma_longest_prefix_wins(
    f: ModuleFilter,
    module: Seq<char>,
    i: int,
    global: LevelFilter,
    explicit: bool,
)
    requires
        f.wf(),
        0 <= i < f.entries().len(),
        is_prefix_of(f.entries()[i].0, module),
        forall|j: int|
            0 <= j < f.entries().len() && is_prefix_of(#[trigger] f.entries()[j].0, module)
                ==> f.entries()[j].0.len() <= f.entries()[i].0.len(),
    ensures
        f.effective(module, global, explicit) == f.entries()[i].1,
{
    lemma_first_match_longest(f.entries(), module, i);
}

/// In a longest-first list with distinct prefixes, the first matching
/// entry is the one with the longest matching prefix.
proof fn lemma_first_match_longest(entries: Seq<(Seq<char>, LevelFilter)>, module: Seq<char>, i: int)
    requires
        sorted_by_len(entries),
        distinct_keys(entries),
        0 <= i < entries.len(),
        is_prefix_of(entries[i].0, module),
        forall|j: int|
            0 <= j < entries.len() && is_prefix_of(#[trigger] entries[j].0, module)
                ==> entries[j].0.len() <= entries[i].0.len(),
    ensures
        first_match(entries, module) == Some(entries[i].1),
    decreases entries.len(),
{
    if is_prefix_of(entries[0].0, module) {
        if i != 0 {
            // the head also matches, so it is exactly as long as entry i;
            // two equally long prefixes of the same path are equal, which
            // distinctness rules out
            assert(entries[0].0.len() >= entries[i].0.len());
            assert(entries[0].0 == module.subrange(0, entries[0].0.len() as int));
            assert(entries[i].0 == module.subrange(0, entries[i].0.len() as int));
            assert(false);
        }
    } else {
        let rest = entries.drop_first();
        assert forall|a: int, b: int|
            0 <= a < b < rest.len() implies #[trigger] rest[a].0.len() >= #[trigger] rest[b].0.len() by {
            assert(entries[a + 1].0.len() >= entries[b + 1].0.len());
        }
        assert forall|a: int, b: int|
            0 <= a < b < rest.len() implies #[trigger] rest[a].0 != #[trigger] rest[b].0 by {
            assert(entries[a + 1].0 != entries[b + 1].0);
        }
        assert forall|j: int|
            0 <= j < rest.len() && is_prefix_of(#[trigger] rest[j].0, module) implies rest[j].0.len()
            <= rest[i - 1].0.len() by {
            assert(is_prefix_of(entries[j + 1].0, module));
        }
        lemma_first_match_longest(rest, module, i - 1);
    }
}

/// No entry matches `module`: resolution falls through.
proof fn lemma_first_match_none(entries: Seq<(Seq<char>, LevelFilter)>, module: Seq<char>)
    requires
        forall|j: int| 0 <= j < entries.len() ==> !is_prefix_of(#[trigger] entries[j].0, module),
    ensures
        first_match(entries, module) == None::<LevelFilter>,
    decreases entries.len(),
{
    if entries.len() > 0 {
        assert forall|j: int|
            0 <= j < entries.drop_first().len() implies !is_prefix_of(
            #[trigger] entries.drop_first()[j].0,
            module,
        ) by {
            assert(!is_prefix_of(entries[j + 1].0, module));
        }
        lemma_first_match_none(entries.drop_first(), module);
    }
}

/// LAW: under explicit mode, a module with no matching override is
/// rejected at every severity, Trace included.
pub proof fn lemma_explicit_blocks_unmatched(
    f: ModuleFilter,
    module: Seq<char>,
    global: LevelFilter,
    sev: Level,
)
    requires
        forall|j: int|
            0 <= j < f.entries().len() ==> !is_prefix_of(#[trigger] f.entries()[j].0, module),
    ensures
        f.effective(module, global, true) == LevelFilter::Off,
        !passes(f.effective(module, global, true), sev),
{
    lemma_first_match_none(f.entries(), module);
}

/// LAW: without explicit mode, a module with no matching override is
/// governed exactly by the global threshold: an event passes if and only
/// if the global threshold is not `Off` and the severity is at least as
/// urgent as it.
pub proof fn lemma_global_threshold_applies(
    f: ModuleFilter,
    module: Seq<char>,
    global: LevelFilter,
    sev: Level,
)
    requires
        forall|j: int|
            0 <= j < f.entries().len() ==> !is_prefix_of(#[trigger] f.entries()[j].0, module),
    ensures
        f.effective(module, global, false) == global,
        passes(f.effective(module, global, false), sev) == (global != LevelFilter::Off
            && level_rank(sev) <= filter_rank(global)),
{
    lemma_first_match_none(f.entries(), module);
}

/// LAW: resolution is deterministic. `resolve` ensures its result equals
/// `effective` applied to its inputs, so any two results obtained from
/// the same finalized filter, module path, global threshold and flag are
/// the same value.
pub proof fn lemma_resolve_repeatable(
    f: ModuleFilter,
    module: Seq<char>,
    global: LevelFilter,
    explicit: bool,
    r1: LevelFilter,
    r2: LevelFilter,
)
    requires
        r1 == f.effective(module, global, explicit),
        r2 == f.effective(module, global, explicit),
    ensures
        r1 == r2,
{
}

/// Updating the entry that holds `key` changes only `key`'s binding.
proof fn lemma_lookup_update(
    entries: Seq<(Seq<char>, LevelFilter)>,
    j: int,
    key: Seq<char>,
    level: LevelFilter,
)
    requires
        distinct_keys(entries),
        0 <= j < entries.len(),
        entries[j].0 == key,
    ensures
        lookup(entries.update(j, (key, level)), key) == Some(level),
        forall|k: Seq<char>|
            k != key ==> #[trigger] lookup(entries.update(j, (key, level)), k) == lookup(
                entries,
                k,
            ),
    decreases entries.len(),
{
    let upd = entries.update(j, (key, level));
    if j == 0 {
        assert(upd[0] == (key, level));
        assert(upd.drop_first() =~= entries.drop_first());
    } else {
        assert(upd[0] == entries[0]);
        assert(entries[0].0 != key);
        assert(upd.drop_first() =~= entries.drop_first().update(j - 1, (key, level)));
        lemma_lookup_update(entries.drop_first(), j - 1, key, level);
    }
    assert forall|k: Seq<char>| k != key implies #[trigger] lookup(upd, k) == lookup(
        entries,
        k,
    ) by {
        if j == 0 {
            assert(lookup(upd, k) == lookup(upd.drop_first(), k));
            assert(lookup(entries, k) == lookup(entries.drop_first(), k));
        } else {
            if entries[0].0 == k {
                assert(lookup(upd, k) == Some(upd[0].1));
            } else {
                assert(lookup(upd.drop_first(), k) == lookup(
                    entries.drop_first().update(j - 1, (key, level)),
                    k,
                ));
            }
        }
    }
}

/// Inserting a fresh prefix binds it and changes no other binding.
proof fn lemma_lookup_insert(
    entries: Seq<(Seq<char>, LevelFilter)>,
    j: int,
    key: Seq<char>,
    level: LevelFilter,
)
    requires
        0 <= j <= entries.len(),
        forall|i: int| 0 <= i < entries.len() ==> #[trigger] entries[i].0 != key,
    ensures
        lookup(entries.insert(j, (key, level)), key) == Some(level),
        forall|k: Seq<char>|
            k != key ==> #[trigger] lookup(entries.insert(j, (key, level)), k) == lookup(
                entries,
                k,
            ),
    decreases entries.len(),
{
    let ins = entries.insert(j, (key, level));
    if j == 0 {
        assert(ins[0] == (key, level));
        assert(ins.drop_first() =~= entries);
        lemma_lookup_fresh(entries, key);
    } else {
        assert(ins[0] == entries[0]);
        assert(entries[0].0 != key);
        assert(ins.drop_first() =~= entries.drop_first().insert(j - 1, (key, level)));
        lemma_lookup_insert(entries.drop_first(), j - 1, key, level);
    }
    assert forall|k: Seq<char>| k != key implies #[trigger] lookup(ins, k) == lookup(
        entries,
        k,
    ) by {
        if j == 0 {
            assert(lookup(ins, k) == lookup(ins.drop_first(), k));
        } else {
            if entries[0].0 == k {
                assert(lookup(ins, k) == Some(ins[0].1));
            } else {
                assert(lookup(ins.drop_first(), k) == lookup(
                    entries.drop_first().insert(j - 1, (key, level)),
                    k,
                ));
            }
        }
    }
}

/// A prefix that appears in no entry has no binding.
proof fn lemma_lookup_fresh(entries: Seq<(Seq<char>, LevelFilter)>, key: Seq<char>)
    requires
        forall|i: int| 0 <= i < entries.len() ==> #[trigger] entries[i].0 != key,
    ensures
        lookup(entries, key) == None::<LevelFilter>,
    decreases entries.len(),
{
    if entries.len() > 0 {
        lemma_lookup_fresh(entries.drop_first(), key);
    }
}

} // verus!

//! What is known of the outside world: paths, file contents, variables.
//!
//! Decisions that depend on the file system or the environment are functions of
//! these records. Where a decision needs a fact that is not recorded yet, it says
//! which one.

use vstd::prelude::*;

use crate::text;

verus! {

/// What stands at a path.
#[derive(Debug, Clone, Copy, PartialEq, Eq, Structural)]
pub enum PathKind {
    /// Nothing stands there.
    Missing,
    /// A regular file.
    File,
    /// A directory.
    Dir,
    /// Something else: a socket, a device.
    Other,
}

/// How reading a file as text ended.
#[derive(Debug)]
pub enum ReadOutcome {
    /// The file does not exist.
    NotFound,
    /// Reading failed for another reason.
    Failed(String),
    /// The contents of the file.
    Text(String),
}

/// The model of [`ReadOutcome`].
pub enum ReadText {
    NotFound,
    Failed(Seq<char>),
    Text(Seq<char>),
}

impl View for ReadOutcome {
    type V = ReadText;

    open spec fn view(&self) -> ReadText {
        match self {
            ReadOutcome::NotFound => ReadText::NotFound,
            ReadOutcome::Failed(s) => ReadText::Failed(s@),
            ReadOutcome::Text(s) => ReadText::Text(s@),
        }
    }
}

/// A recorded path.
#[derive(Debug)]
pub struct KindFact {
    pub path: String,
    pub kind: PathKind,
}

/// A recorded read.
#[derive(Debug)]
pub struct ReadFact {
    pub path: String,
    pub outcome: ReadOutcome,
}

/// What is recorded of the file system. An earlier record of a path wins over a
/// later one.
#[derive(Debug)]
pub struct Facts {
    pub kinds: Vec<KindFact>,
    pub reads: Vec<ReadFact>,
}

/// What is known of a path after the records `ks`.
pub open spec fn known_kind(ks: Seq<KindFact>, p: Seq<char>) -> Option<PathKind>
    decreases ks.len(),
{
    if ks.len() == 0 {
        None
    } else if ks[0].path@ == p {
        Some(ks[0].kind)
    } else {
        known_kind(ks.drop_first(), p)
    }
}

/// What is known of the text of a file after the records `rs`.
pub open spec fn known_read(rs: Seq<ReadFact>, p: Seq<char>) -> Option<ReadText>
    decreases rs.len(),
{
    if rs.len() == 0 {
        None
    } else if rs[0].path@ == p {
        Some(rs[0].outcome@)
    } else {
        known_read(rs.drop_first(), p)
    }
}

/// An answer that may still lack a fact.
#[derive(Debug)]
pub enum Lookup<T> {
    /// The answer.
    Known(T),
    /// What stands at this path has to be recorded first.
    NeedKind(String),
    /// The text of the file at this path has to be recorded first.
    NeedText(String),
}

/// The model of [`Lookup`].
pub enum Answer<T> {
    Known(T),
    NeedKind(Seq<char>),
    NeedText(Seq<char>),
}

impl Facts {
    /// What is known of a path.
    pub open spec fn kind_at(&self, p: Seq<char>) -> Option<PathKind> {
        known_kind(self.kinds@, p)
    }

    /// What is known of the text of a file.
    pub open spec fn read_at(&self, p: Seq<char>) -> Option<ReadText> {
        known_read(self.reads@, p)
    }

    /// No facts.
    pub fn new() -> (r: Facts)
        ensures
            r.kinds@ == Seq::<KindFact>::empty(),
            r.reads@ == Seq::<ReadFact>::empty(),
            forall|p: Seq<char>| r.kind_at(p) is None && r.read_at(p) is None,
    {
        Facts { kinds: Vec::new(), reads: Vec::new() }
    }

    /// Records what stands at a path. What was known before is kept.
    pub fn record_kind(&mut self, path: String, kind: PathKind)
        ensures
            final(self).reads == old(self).reads,
            forall|p: Seq<char>| #[trigger]
                final(self).kind_at(p) == match old(self).kind_at(p) {
                    Some(k) => Some(k),
                    None => if p == path@ {
                        Some(kind)
                    } else {
                        None
                    },
                },
    {
        let ghost before = self.kinds@;
        self.kinds.push(KindFact { path, kind });
        proof {
            assert forall|p: Seq<char>| #[trigger]
                known_kind(self.kinds@, p) == match known_kind(before, p) {
                    Some(k) => Some(k),
                    None => if p == path@ {
                        Some(kind)
                    } else {
                        None
                    },
                } by {
                kind_after_push(before, self.kinds@.last(), p);
                assert(self.kinds@ =~= before.push(self.kinds@.last()));
            }
        }
    }

    /// Records how reading a file ended. What was known before is kept.
    pub fn record_read(&mut self, path: String, outcome: ReadOutcome)
        ensures
            final(self).kinds == old(self).kinds,
            forall|p: Seq<char>| #[trigger]
                final(self).read_at(p) == match old(self).read_at(p) {
                    Some(k) => Some(k),
                    None => if p == path@ {
                        Some(outcome@)
                    } else {
                        None
                    },
                },
    {
        let ghost before = self.reads@;
        self.reads.push(ReadFact { path, outcome });
        proof {
            assert forall|p: Seq<char>| #[trigger]
                known_read(self.reads@, p) == match known_read(before, p) {
                    Some(k) => Some(k),
                    None => if p == path@ {
                        Some(outcome@)
                    } else {
                        None
                    },
                } by {
                read_after_push(before, self.reads@.last(), p);
                assert(self.reads@ =~= before.push(self.reads@.last()));
            }
        }
    }

    /// What is known of a path.
    pub fn kind(&self, p: &str) -> (r: Option<PathKind>)
        ensures
            r == self.kind_at(p@),
    {
        let mut i: usize = 0;
        assert(self.kinds@.skip(0) =~= self.kinds@);
        while i < self.kinds.len()
            invariant
                i <= self.kinds@.len(),
                self.kind_at(p@) == known_kind(self.kinds@.skip(i as int), p@),
            decreases self.kinds@.len() - i,
        {
            let ghost rest = self.kinds@.skip(i as int);
            assert(rest[0] == self.kinds@[i as int]);
            assert(rest.drop_first() =~= self.kinds@.skip(i + 1));
            if text::same_text(self.kinds[i].path.as_str(), p) {
                return Some(self.kinds[i].kind);
            }
            i = i + 1;
        }
        None
    }

    /// What is known of the text of a file.
    pub fn read(&self, p: &str) -> (r: Option<&ReadOutcome>)
        ensures
            match r {
                Some(o) => self.read_at(p@) == Some(o@),
                None => self.read_at(p@) is None,
            },
    {
        let mut i: usize = 0;
        assert(self.reads@.skip(0) =~= self.reads@);
        while i < self.reads.len()
            invariant
                i <= self.reads@.len(),
                self.read_at(p@) == known_read(self.reads@.skip(i as int), p@),
            decreases self.reads@.len() - i,
        {
            let ghost rest = self.reads@.skip(i as int);
            assert(rest[0] == self.reads@[i as int]);
            assert(rest.drop_first() =~= self.reads@.skip(i + 1));
            if text::same_text(self.reads[i].path.as_str(), p) {
                return Some(&self.reads[i].outcome);
            }
            i = i + 1;
        }
        None
    }
}

proof fn kind_after_push(ks: Seq<KindFact>, f: KindFact, p: Seq<char>)
    ensures
        known_kind(ks.push(f), p) == match known_kind(ks, p) {
            Some(k) => Some(k),
            None => if p == f.path@ {
                Some(f.kind)
            } else {
                None
            },
        },
    decreases ks.len(),
{
    reveal_with_fuel(known_kind, 2);
    if ks.len() > 0 {
        kind_after_push(ks.drop_first(), f, p);
        assert(ks.push(f).drop_first() =~= ks.drop_first().push(f));
    } else {
        assert(ks.push(f).drop_first().len() == 0);
    }
}

proof fn read_after_push(rs: Seq<ReadFact>, f: ReadFact, p: Seq<char>)
    ensures
        known_read(rs.push(f), p) == match known_read(rs, p) {
            Some(k) => Some(k),
            None => if p == f.path@ {
                Some(f.outcome@)
            } else {
                None
            },
        },
    decreases rs.len(),
{
    reveal_with_fuel(known_read, 2);
    if rs.len() > 0 {
        read_after_push(rs.drop_first(), f, p);
        assert(rs.push(f).drop_first() =~= rs.drop_first().push(f));
    } else {
        assert(rs.push(f).drop_first().len() == 0);
    }
}

/// A key and its value.
#[derive(Debug)]
pub struct Binding {
    pub key: String,
    pub value: String,
}

/// The model of a list of bindings.
pub open spec fn pairs(bs: Seq<Binding>) -> Seq<(Seq<char>, Seq<char>)> {
    bs.map_values(|b: Binding| (b.key@, b.value@))
}

/// The value bound to `k` in a list of bindings; the first binding counts.
pub open spec fn bound(ps: Seq<(Seq<char>, Seq<char>)>, k: Seq<char>) -> Option<Seq<char>>
    decreases ps.len(),
{
    if ps.len() == 0 {
        None
    } else if ps[0].0 == k {
        Some(ps[0].1)
    } else {
        bound(ps.drop_first(), k)
    }
}

/// Looks up `k` in a list of bindings.
pub fn lookup<'a>(bs: &'a Vec<Binding>, k: &str) -> (r: Option<&'a String>)
    ensures
        match r {
            Some(v) => bound(pairs(bs@), k@) == Some(v@),
            None => bound(pairs(bs@), k@) is None,
        },
{
    let mut i: usize = 0;
    assert(pairs(bs@).skip(0) =~= pairs(bs@));
    while i < bs.len()
        invariant
            i <= bs@.len(),
            bound(pairs(bs@), k@) == bound(pairs(bs@).skip(i as int), k@),
        decreases bs@.len() - i,
    {
        let ghost rest = pairs(bs@).skip(i as int);
        assert(rest[0] == (bs@[i as int].key@, bs@[i as int].value@));
        assert(rest.drop_first() =~= pairs(bs@).skip(i + 1));
        if text::same_text(bs[i].key.as_str(), k) {
            return Some(&bs[i].value);
        }
        i = i + 1;
    }
    None
}

/// A binding added at the end changes what its key is bound to only where the key
/// was not bound.
pub proof fn bound_after_push(
    ps: Seq<(Seq<char>, Seq<char>)>,
    key: Seq<char>,
    value: Seq<char>,
    k: Seq<char>,
)
    ensures
        bound(ps.push((key, value)), k) == match bound(ps, k) {
            Some(v) => Some(v),
            None => if k == key {
                Some(value)
            } else {
                None
            },
        },
    decreases ps.len(),
{
    reveal_with_fuel(bound, 2);
    if ps.len() > 0 {
        bound_after_push(ps.drop_first(), key, value, k);
        assert(ps.push((key, value)).drop_first() =~= ps.drop_first().push((key, value)));
    } else {
        assert(ps.push((key, value)).drop_first().len() == 0);
    }
}

/// What is known of a path is what was recorded of it first.
pub proof fn first_record_of_a_path_counts(ks: Seq<KindFact>, i: int)
    requires
        0 <= i < ks.len(),
        forall|j: int| 0 <= j < i ==> (#[trigger] ks[j]).path@ != ks[i].path@,
    ensures
        known_kind(ks, ks[i].path@) == Some(ks[i].kind),
    decreases ks.len(),
{
    if i > 0 {
        assert(ks[0].path@ != ks[i].path@);
        let rest = ks.drop_first();
        assert forall|j: int| 0 <= j < i - 1 implies (#[trigger] rest[j]).path@ != rest[i
            - 1].path@ by {
            assert(rest[j] == ks[j + 1]);
        }
        first_record_of_a_path_counts(rest, i - 1);
    }
}

/// Nothing is known of a path that was not recorded.
pub proof fn unrecorded_path_is_unknown(ks: Seq<KindFact>, p: Seq<char>)
    requires
        forall|j: int| 0 <= j < ks.len() ==> (#[trigger] ks[j]).path@ != p,
    ensures
        known_kind(ks, p) is None,
    decreases ks.len(),
{
    if ks.len() > 0 {
        assert(ks[0].path@ != p);
        let rest = ks.drop_first();
        assert forall|j: int| 0 <= j < rest.len() implies (#[trigger] rest[j]).path@ != p by {
            assert(rest[j] == ks[j + 1]);
        }
        unrecorded_path_is_unknown(rest, p);
    }
}

/// What is known of the contents of a file is what was read first.
pub proof fn first_read_of_a_file_counts(rs: Seq<ReadFact>, i: int)
    requires
        0 <= i < rs.len(),
        forall|j: int| 0 <= j < i ==> (#[trigger] rs[j]).path@ != rs[i].path@,
    ensures
        known_read(rs, rs[i].path@) == Some(rs[i].outcome@),
    decreases rs.len(),
{
    if i > 0 {
        assert(rs[0].path@ != rs[i].path@);
        let rest = rs.drop_first();
        assert forall|j: int| 0 <= j < i - 1 implies (#[trigger] rest[j]).path@ != rest[i
            - 1].path@ by {
            assert(rest[j] == rs[j + 1]);
        }
        first_read_of_a_file_counts(rest, i - 1);
    }
}

/// A key is bound to the value of its first binding, and only where it has one.
pub proof fn first_binding_counts(ps: Seq<(Seq<char>, Seq<char>)>, i: int)
    requires
        0 <= i < ps.len(),
        forall|j: int| 0 <= j < i ==> (#[trigger] ps[j]).0 != ps[i].0,
    ensures
        bound(ps, ps[i].0) == Some(ps[i].1),
    decreases ps.len(),
{
    if i > 0 {
        assert(ps[0].0 != ps[i].0);
        let rest = ps.drop_first();
        assert forall|j: int| 0 <= j < i - 1 implies (#[trigger] rest[j]).0 != rest[i - 1].0 by {
            assert(rest[j] == ps[j + 1]);
        }
        first_binding_counts(rest, i - 1);
    }
}

/// A key without a binding is bound to nothing.
pub proof fn unbound_key_has_no_value(ps: Seq<(Seq<char>, Seq<char>)>, k: Seq<char>)
    requires
        forall|j: int| 0 <= j < ps.len() ==> (#[trigger] ps[j]).0 != k,
    ensures
        bound(ps, k) is None,
    decreases ps.len(),
{
    if ps.len() > 0 {
        assert(ps[0].0 != k);
        let rest = ps.drop_first();
        assert forall|j: int| 0 <= j < rest.len() implies (#[trigger] rest[j]).0 != k by {
            assert(rest[j] == ps[j + 1]);
        }
        unbound_key_has_no_value(rest, k);
    }
}

/// Bindings are read as their keys and values, in their order.
pub proof fn pairs_are_the_bindings(bs: Seq<Binding>)
    ensures
        pairs(bs).len() == bs.len(),
        forall|i: int| 0 <= i < bs.len() ==> #[trigger] pairs(bs)[i] == (bs[i].key@, bs[i].value@),
{
}

} // verus!

//! Remapping of temporary identifiers to stable ones, one transaction at a
//! time.

use vstd::prelude::*;
use vstd::string::StringExecFns;
use crate::errors::TolstoyError;
use crate::facts::{parts_view, Identifier, TxPart, TxPartView, TypedValue, TypedValueView};

verus! {

/// The source of stable identifiers.
pub trait IdAllocator {
    /// Every identifier handed out so far. An allocator that gives no
    /// model of itself is taken to have handed out none.
    open spec fn allocated(&self) -> Set<i64> {
        Set::empty()
    }

    /// How many identifiers the allocator can still hand out for certain.
    /// An allocator that does not say is taken to promise none.
    open spec fn remaining(&self) -> nat {
        0
    }

    /// Hands out a stable identifier that was never handed out before, or
    /// fails and hands out nothing. It succeeds as long as identifiers
    /// remain, and uses up at most one of them.
    fn allocate_stable_id(&mut self) -> (r: Result<i64, TolstoyError>)
        ensures
            match r {
                Ok(id) => !old(self).allocated().contains(id) && final(self).allocated()
                    == old(self).allocated().insert(id),
                Err(_) => final(self).allocated() == old(self).allocated(),
            },
            old(self).remaining() > 0 ==> r is Ok,
            final(self).remaining() + 1 >= old(self).remaining(),
    ;
}

/// An allocator that counts upwards from where it was started.
pub struct SequentialAllocator {
    first: i64,
    next: i64,
}

impl SequentialAllocator {
    #[verifier::type_invariant]
    spec fn counts_upwards(self) -> bool {
        self.first <= self.next
    }

    /// An allocator whose first identifier is `first`.
    pub fn starting_at(first: i64) -> (a: SequentialAllocator)
        ensures
            a.next_id() == first,
            a.allocated() == Set::<i64>::empty(),
    {
        let a = SequentialAllocator { first, next: first };
        assert(a.allocated() =~= Set::<i64>::empty());
        a
    }

    /// The identifier that the next allocation hands out.
    pub closed spec fn next_id(&self) -> i64 {
        self.next
    }
}

impl IdAllocator for SequentialAllocator {
    closed spec fn allocated(&self) -> Set<i64> {
        Set::new(|id: i64| self.first <= id < self.next)
    }

    closed spec fn remaining(&self) -> nat {
        (i64::MAX - self.next) as nat
    }

    /// Fails with `DbError` once `i64::MAX` would have to be handed out.
    fn allocate_stable_id(&mut self) -> (r: Result<i64, TolstoyError>)
        ensures
            match r {
                Ok(id) => id == old(self).next_id() && id < i64::MAX && final(self).next_id() == id
                    + 1,
                Err(e) => old(self).next_id() == i64::MAX && final(self).next_id() == i64::MAX
                    && e is DbError,
            },
    {
        proof {
            use_type_invariant(&*self);
        }
        if self.next == i64::MAX {
            return Err(TolstoyError::DbError(String::new()));
        }
        let id = self.next;
        self.next = id + 1;
        assert(self.allocated() =~= old(self).allocated().insert(id));
        Ok(id)
    }
}

/// The stable identifiers that `entries` record for `temp`, in the order in
/// which they were recorded.
pub open spec fn mappings_for(entries: Seq<(i64, i64)>, temp: i64) -> Seq<i64>
    decreases entries.len(),
{
    if entries.len() == 0 {
        Seq::empty()
    } else if entries.last().0 == temp {
        mappings_for(entries.drop_last(), temp).push(entries.last().1)
    } else {
        mappings_for(entries.drop_last(), temp)
    }
}

/// The mapping that `entries` stand for; a later entry for a temporary
/// identifier overrides an earlier one.
pub open spec fn mapping_of(entries: Seq<(i64, i64)>) -> Map<i64, i64>
    decreases entries.len(),
{
    if entries.len() == 0 {
        Map::empty()
    } else {
        mapping_of(entries.drop_last()).insert(entries.last().0, entries.last().1)
    }
}

/// The identifier after remapping: a temporary identifier that `m` maps
/// becomes the stable identifier it is mapped to, every other identifier
/// stays.
pub open spec fn remap_identifier(id: Identifier, m: Map<i64, i64>) -> Identifier {
    match id {
        Identifier::Temp(t) => if m.contains_key(t) {
            Identifier::Stable(m[t])
        } else {
            id
        },
        Identifier::Stable(_) => id,
    }
}

/// The fact after remapping: its entity and, where its value is a reference,
/// the identifier it refers to are remapped; the rest stays.
pub open spec fn remap_part(part: TxPartView, m: Map<i64, i64>) -> TxPartView {
    TxPartView {
        e: remap_identifier(part.e, m),
        a: part.a,
        v: match part.v {
            TypedValueView::Ref(id) => TypedValueView::Ref(remap_identifier(id, m)),
            other => other,
        },
        added: part.added,
    }
}

/// Every fact of `parts` after remapping, in order.
pub open spec fn remap_all(parts: Seq<TxPartView>, m: Map<i64, i64>) -> Seq<TxPartView> {
    Seq::new(parts.len(), |i: int| remap_part(parts[i], m))
}

/// `m` maps every temporary identifier that the fact mentions.
pub open spec fn covers(m: Map<i64, i64>, part: TxPartView) -> bool {
    &&& part.e matches Identifier::Temp(t) ==> m.contains_key(t)
    &&& part.value_ref() matches Some(Identifier::Temp(t)) ==> m.contains_key(t)
}

/// The temporary identifier `t` occurs in one of the facts.
pub open spec fn mentions(parts: Seq<TxPartView>, t: i64) -> bool {
    exists|i: int|
        0 <= i < parts.len() && ((#[trigger] parts[i]).e == Identifier::Temp(t)
            || parts[i].value_ref() == Some(Identifier::Temp(t)))
}

/// The remapping table of one transaction: pairs of a temporary identifier
/// and the stable identifier recorded for it, in the order of first sight.
#[derive(Debug)]
pub struct RemapTable {
    pub entries: Vec<(i64, i64)>,
}

impl View for RemapTable {
    type V = Map<i64, i64>;

    open spec fn view(&self) -> Map<i64, i64> {
        mapping_of(self.entries@)
    }
}

/// What one more entry adds to the records for a temporary identifier and
/// to the mapping.
pub proof fn lemma_mappings_for_push(entries: Seq<(i64, i64)>, entry: (i64, i64), temp: i64)
    ensures
        mappings_for(entries.push(entry), temp) == if entry.0 == temp {
            mappings_for(entries, temp).push(entry.1)
        } else {
            mappings_for(entries, temp)
        },
        mapping_of(entries.push(entry)) == mapping_of(entries).insert(entry.0, entry.1),
{
    assert(entries.push(entry).drop_last() =~= entries);
}

/// A temporary identifier has a recorded mapping exactly if the mapping that
/// the entries stand for has it as a key.
pub proof fn lemma_mappings_and_mapping(entries: Seq<(i64, i64)>, temp: i64)
    ensures
        mappings_for(entries, temp).len() > 0 <==> mapping_of(entries).contains_key(temp),
        mappings_for(entries, temp).len() > 0 ==> mapping_of(entries)[temp] == mappings_for(
            entries,
            temp,
        ).last(),
    decreases entries.len(),
{
    if entries.len() > 0 {
        lemma_mappings_and_mapping(entries.drop_last(), temp);
    }
}

impl RemapTable {
    /// Each temporary identifier is recorded at most once.
    pub open spec fn is_consistent(&self) -> bool {
        forall|t: i64| #[trigger] mappings_for(self.entries@, t).len() <= 1
    }

    /// A table without entries.
    pub fn new() -> (table: RemapTable)
        ensures
            table.entries@ == Seq::<(i64, i64)>::empty(),
            table@ == Map::<i64, i64>::empty(),
            table.is_consistent(),
    {
        RemapTable { entries: Vec::new() }
    }

    /// What the table records for `temp`: nothing, one stable identifier, or,
    /// where it records several, the inconsistency.
    pub fn lookup(&self, temp: i64) -> (r: Result<Option<i64>, TolstoyError>)
        ensures
            ({
                let n = mappings_for(self.entries@, temp).len();
                if n == 0 {
                    r == Ok::<Option<i64>, TolstoyError>(None)
                } else if n == 1 {
                    r == Ok::<Option<i64>, TolstoyError>(Some(self@[temp]))
                } else {
                    r == Err::<Option<i64>, TolstoyError>(
                        TolstoyError::TxIncorrectlyMapped(n as usize),
                    )
                }
            }),
    {
        let mut found: usize = 0;
        let mut stable: i64 = 0;
        let mut i: usize = 0;
        while i < self.entries.len()
            invariant
                i <= self.entries@.len(),
                found == mappings_for(self.entries@.take(i as int), temp).len(),
                found > 0 ==> stable == mappings_for(self.entries@.take(i as int), temp).last(),
                found <= i,
            decreases self.entries@.len() - i,
        {
            proof {
                assert(self.entries@.take(i + 1) =~= self.entries@.take(i as int).push(
                    self.entries@[i as int],
                ));
                lemma_mappings_for_push(self.entries@.take(i as int), self.entries@[i as int], temp);
            }
            if self.entries[i].0 == temp {
                found += 1;
                stable = self.entries[i].1;
            }
            i += 1;
        }
        proof {
            assert(self.entries@.take(i as int) =~= self.entries@);
            lemma_mappings_and_mapping(self.entries@, temp);
        }
        if found == 0 {
            Ok(None)
        } else if found == 1 {
            Ok(Some(stable))
        } else {
            Err(TolstoyError::TxIncorrectlyMapped(found))
        }
    }

    /// The stable identifier of a temporary identifier that has been
    /// resolved: the table must record exactly one for it. None and several
    /// are `TxIncorrectlyMapped`, with their number.
    pub fn stable_for(&self, temp: i64) -> (r: Result<i64, TolstoyError>)
        ensures
            ({
                let n = mappings_for(self.entries@, temp).len();
                if n == 1 {
                    r == Ok::<i64, TolstoyError>(self@[temp])
                } else {
                    r == Err::<i64, TolstoyError>(TolstoyError::TxIncorrectlyMapped(n as usize))
                }
            }),
    {
        match self.lookup(temp) {
            Ok(Some(stable)) => Ok(stable),
            Ok(None) => Err(TolstoyError::TxIncorrectlyMapped(0)),
            Err(e) => Err(e),
        }
    }

    /// Resolves one identifier. A stable identifier is its own resolution. A
    /// temporary identifier resolves to what the table records for it; on
    /// first sight a stable identifier is allocated and recorded. Several
    /// records for one temporary identifier are `TxIncorrectlyMapped`.
    pub fn resolve<A: IdAllocator>(&mut self, id: Identifier, ids: &mut A) -> (r: Result<
        i64,
        TolstoyError,
    >)
        ensures
            match id {
                Identifier::Stable(s) => r == Ok::<i64, TolstoyError>(s),
                Identifier::Temp(t) => {
                    let n = mappings_for(old(self).entries@, t).len();
                    if n == 0 {
                        r matches Ok(s) ==> !old(ids).allocated().contains(s)
                    } else if n == 1 {
                        r == Ok::<i64, TolstoyError>(old(self)@[t])
                    } else {
                        r == Err::<i64, TolstoyError>(
                            TolstoyError::TxIncorrectlyMapped(n as usize),
                        )
                    }
                },
            },
            match (id, r) {
                (Identifier::Temp(t), Ok(s)) if mappings_for(old(self).entries@, t).len() == 0 => {
                    &&& final(self).entries@ == old(self).entries@.push((t, s))
                    &&& final(ids).allocated() == old(ids).allocated().insert(s)
                },
                _ => {
                    &&& final(self).entries@ == old(self).entries@
                    &&& final(ids).allocated() == old(ids).allocated()
                },
            },
            old(self).is_consistent() ==> final(self).is_consistent(),
            r matches Ok(s) ==> remap_identifier(id, final(self)@) == Identifier::Stable(s),
            grown_by(old(self)@, final(self)@, id, old(ids).allocated(), final(ids).allocated()),
            old(self).is_consistent() && old(ids).remaining() > 0 ==> r is Ok,
            final(ids).remaining() + 1 >= old(ids).remaining(),
    {
        proof {
            if let Identifier::Temp(t) = id {
                lemma_mappings_and_mapping(self.entries@, t);
            }
        }
        match id {
            Identifier::Stable(s) => Ok(s),
            Identifier::Temp(t) => match self.lookup(t) {
                Ok(Some(s)) => Ok(s),
                Ok(None) => match ids.allocate_stable_id() {
                    Ok(s) => {
                        self.entries.push((t, s));
                        proof {
                            lemma_mappings_for_push(old(self).entries@, (t, s), t);
                            if old(self).is_consistent() {
                                assert forall|u: i64| #[trigger]
                                    mappings_for(self.entries@, u).len() <= 1 by {
                                    lemma_mappings_for_push(old(self).entries@, (t, s), u);
                                    assert(mappings_for(old(self).entries@, u).len() <= 1);
                                }
                            }
                        }
                        Ok(s)
                    },
                    Err(e) => Err(e),
                },
                Err(e) => Err(e),
            },
        }
    }

    /// Remaps one fact: resolves its entity and, where its value is a
    /// reference, the identifier it refers to.
    pub fn remap<A: IdAllocator>(&mut self, part: &TxPart, ids: &mut A) -> (r: Result<
        TxPart,
        TolstoyError,
    >)
        requires
            old(self).is_consistent(),
        ensures
            final(self).is_consistent(),
            grown_for(old(self)@, final(self)@, part@, old(ids).allocated(), final(ids).allocated()),
            r matches Ok(out) ==> {
                &&& covers(final(self)@, part@)
                &&& out@ == remap_part(part@, final(self)@)
                &&& out@.is_resolved()
            },
            covers(old(self)@, part@) ==> r is Ok && final(self)@ == old(self)@ && final(ids).allocated() == old(ids).allocated(),
            old(ids).remaining() >= 2 ==> r is Ok,
            final(ids).remaining() + 2 >= old(ids).remaining(),
    {
        let ghost before = self@;
        let ghost handed = ids.allocated();
        proof {
            if let Identifier::Temp(t) = part.e {
                lemma_mappings_and_mapping(self.entries@, t);
                assert(mappings_for(self.entries@, t).len() <= 1);
            }
        }
        let e = match self.resolve(part.e, ids) {
            Ok(s) => s,
            Err(err) => {
                proof {
                    lemma_grown_twice(
                        before,
                        self@,
                        self@,
                        part.e,
                        part.e,
                        part@,
                        handed,
                        ids.allocated(),
                        ids.allocated(),
                    );
                }
                return Err(err);
            },
        };
        let ghost between = self@;
        let ghost handed_between = ids.allocated();
        let v = match &part.v {
            TypedValue::Ref(id) => {
                proof {
                    if let Identifier::Temp(t) = *id {
                        lemma_mappings_and_mapping(self.entries@, t);
                        assert(mappings_for(self.entries@, t).len() <= 1);
                    }
                }
                let resolved = self.resolve(*id, ids);
                proof {
                    lemma_grown_twice(
                        before,
                        between,
                        self@,
                        part.e,
                        *id,
                        part@,
                        handed,
                        handed_between,
                        ids.allocated(),
                    );
                }
                match resolved {
                    Ok(s) => TypedValue::Ref(Identifier::Stable(s)),
                    Err(err) => {
                        return Err(err);
                    },
                }
            },
            other => {
                proof {
                    lemma_grown_twice(
                        before,
                        between,
                        between,
                        part.e,
                        part.e,
                        part@,
                        handed,
                        handed_between,
                        handed_between,
                    );
                }
                other.clone()
            },
        };
        Ok(TxPart { e: Identifier::Stable(e), a: part.a, v, added: part.added })
    }
}

/// Two resolutions in a row, of a fact's entity and of the identifier that
/// its value refers to, change the table and the allocator as `grown_for`
/// says.
pub proof fn lemma_grown_twice(
    m0: Map<i64, i64>,
    m1: Map<i64, i64>,
    m2: Map<i64, i64>,
    first: Identifier,
    second: Identifier,
    part: TxPartView,
    h0: Set<i64>,
    h1: Set<i64>,
    h2: Set<i64>,
)
    requires
        grown_by(m0, m1, first, h0, h1),
        part.e == first,
        (m1 == m2 && h1 == h2) || (grown_by(m1, m2, second, h1, h2) && part.value_ref() == Some(
            second,
        )),
    ensures
        grown_for(m0, m2, part, h0, h2),
{
    assert(extends(m0, m2)) by {
        assert forall|k: i64| #[trigger] m0.contains_key(k) implies m2.contains_key(k) && m2[k]
            == m0[k] by {
            assert(m1.contains_key(k));
        }
    }
    assert(h0.subset_of(h2)) by {
        assert forall|s: i64| h0.contains(s) implies h2.contains(s) by {
            assert(h1.contains(s));
        }
    }
    assert forall|t: i64| #[trigger] m2.contains_key(t) && !m0.contains_key(t) implies {
        &&& part.e == Identifier::Temp(t) || part.value_ref() == Some(Identifier::Temp(t))
        &&& !h0.contains(m2[t])
        &&& h2.contains(m2[t])
    } by {
        if m1.contains_key(t) {
            assert(m2[t] == m1[t]);
        }
    }
    assert forall|t: i64, u: i64|
        #![trigger m2[t], m2[u]]
        m2.contains_key(t) && !m0.contains_key(t) && m2.contains_key(u) && !m0.contains_key(u) && t
            != u implies m2[t] != m2[u] by {
        if m1.contains_key(t) {
            assert(m2[t] == m1[t]);
        }
        if m1.contains_key(u) {
            assert(m2[u] == m1[u]);
        }
    }
}

/// `after` holds every entry of `before`.
pub open spec fn extends(before: Map<i64, i64>, after: Map<i64, i64>) -> bool {
    forall|k: i64| #[trigger] before.contains_key(k) ==> after.contains_key(k) && after[k] == before[k]
}

/// How one resolution may change the table and the allocator: the table
/// keeps what it held, a key it gains is the temporary identifier that was
/// resolved, and the value it gains was not handed out before and is now.
pub open spec fn grown_by(
    before: Map<i64, i64>,
    after: Map<i64, i64>,
    id: Identifier,
    handed_before: Set<i64>,
    handed_after: Set<i64>,
) -> bool {
    &&& extends(before, after)
    &&& handed_before.subset_of(handed_after)
    &&& forall|t: i64| #[trigger]
        after.contains_key(t) && !before.contains_key(t) ==> {
            &&& id == Identifier::Temp(t)
            &&& !handed_before.contains(after[t])
            &&& handed_after.contains(after[t])
        }
    &&& forall|s: i64| #[trigger]
        handed_after.contains(s) && !handed_before.contains(s) ==> exists|t: i64| #[trigger]
            after.contains_key(t) && !before.contains_key(t) && after[t] == s
}

/// How remapping one fact may change the table and the allocator: as
/// `grown_by`, for the identifiers that the fact mentions.
pub open spec fn grown_for(
    before: Map<i64, i64>,
    after: Map<i64, i64>,
    part: TxPartView,
    handed_before: Set<i64>,
    handed_after: Set<i64>,
) -> bool {
    &&& extends(before, after)
    &&& handed_before.subset_of(handed_after)
    &&& forall|t: i64| #[trigger]
        after.contains_key(t) && !before.contains_key(t) ==> {
            &&& part.e == Identifier::Temp(t) || part.value_ref() == Some(Identifier::Temp(t))
            &&& !handed_before.contains(after[t])
            &&& handed_after.contains(after[t])
        }
    &&& forall|t: i64, u: i64|
        #![trigger after[t], after[u]]
        after.contains_key(t) && !before.contains_key(t) && after.contains_key(u)
            && !before.contains_key(u) && t != u ==> after[t] != after[u]
}


/// A fact whose temporary identifiers a table maps is remapped alike by
/// every table that extends it.
pub proof fn lemma_remap_stable(part: TxPartView, before: Map<i64, i64>, after: Map<i64, i64>)
    requires
        covers(before, part),
        extends(before, after),
    ensures
        covers(after, part),
        remap_part(part, after) == remap_part(part, before),
{
    if let Identifier::Temp(t) = part.e {
        assert(before.contains_key(t));
    }
    if let Some(Identifier::Temp(t)) = part.value_ref() {
        assert(before.contains_key(t));
    }
}

/// Remaps the facts of one transaction with a table of its own.
///
/// Each temporary identifier gets one stable identifier, allocated on first
/// sight and used again on every later sight; distinct temporary identifiers
/// get distinct ones, none of which was handed out before. The facts come
/// back without temporary identifiers and otherwise unchanged, together with
/// the table, which maps exactly the temporary identifiers that the facts
/// mention. Only a failing allocation makes this fail; facts without
/// temporary identifiers allocate nothing.
pub fn remap_transaction<A: IdAllocator>(parts: &Vec<TxPart>, ids: &mut A) -> (r: Result<
    (Vec<TxPart>, RemapTable),
    TolstoyError,
>)
    ensures
        old(ids).allocated().subset_of(final(ids).allocated()),
        r matches Ok((facts, table)) ==> {
            &&& table.is_consistent()
            &&& parts_view(facts@) == remap_all(parts_view(parts@), table@)
            &&& forall|i: int| 0 <= i < facts.len() ==> (#[trigger] facts[i])@.is_resolved()
            &&& forall|t: i64| #[trigger]
                table@.contains_key(t) <==> mentions(parts_view(parts@), t)
            &&& forall|t: i64| #[trigger]
                table@.contains_key(t) ==> !old(ids).allocated().contains(table@[t])
                    && final(ids).allocated().contains(table@[t])
            &&& forall|t: i64, u: i64|
                #![trigger table@[t], table@[u]]
                table@.contains_key(t) && table@.contains_key(u) && t != u ==> table@[t]
                    != table@[u]
        },
        (forall|t: i64| !mentions(parts_view(parts@), t)) ==> r is Ok && final(ids).allocated()
            == old(ids).allocated(),
        old(ids).remaining() >= 2 * parts.len() ==> r is Ok,
        final(ids).remaining() + 2 * parts.len() >= old(ids).remaining(),
{
    let ghost handed = ids.allocated();
    let ghost source = parts_view(parts@);
    let mut table = RemapTable::new();
    let mut facts: Vec<TxPart> = Vec::new();
    let mut i: usize = 0;
    while i < parts.len()
        invariant
            i <= parts.len(),
            facts.len() == i,
            source == parts_view(parts@),
            handed == old(ids).allocated(),
            ids.remaining() + 2 * i >= old(ids).remaining(),
            table.is_consistent(),
            handed.subset_of(ids.allocated()),
            (forall|t: i64| !mentions(source, t)) ==> ids.allocated() == handed,
            forall|k: int|
                0 <= k < i ==> covers(table@, #[trigger] source[k]) && facts[k]@ == remap_part(
                    source[k],
                    table@,
                ) && facts[k]@.is_resolved(),
            forall|t: i64| #[trigger]
                table@.contains_key(t) ==> mentions(source, t) && !handed.contains(table@[t])
                    && ids.allocated().contains(table@[t]),
            forall|t: i64, u: i64|
                #![trigger table@[t], table@[u]]
                table@.contains_key(t) && table@.contains_key(u) && t != u ==> table@[t]
                    != table@[u],
        decreases parts.len() - i,
    {
        let ghost before = table@;
        let ghost handed_before = ids.allocated();
        let ghost part = source[i as int];
        assert(part == parts@[i as int]@);
        match table.remap(&parts[i], ids) {
            Ok(fact) => {
                facts.push(fact);
            },
            Err(e) => {
                proof {
                    assert(!covers(before, part));
                    if let Identifier::Temp(t) = part.e {
                        if !before.contains_key(t) {
                            assert(mentions(source, t));
                        }
                    }
                    if let Some(Identifier::Temp(t)) = part.value_ref() {
                        if !before.contains_key(t) {
                            assert(mentions(source, t));
                        }
                    }
                    assert(handed.subset_of(ids.allocated())) by {
                        assert forall|s: i64| handed.contains(s) implies ids.allocated().contains(
                            s,
                        ) by {
                            assert(handed_before.contains(s));
                        }
                    }
                }
                return Err(e);
            },
        }
        proof {
            assert forall|k: int| 0 <= k < i + 1 implies covers(table@, #[trigger] source[k])
                && facts[k]@ == remap_part(source[k], table@) && facts[k]@.is_resolved() by {
                if k < i {
                    lemma_remap_stable(source[k], before, table@);
                }
            }
            assert forall|t: i64| #[trigger] table@.contains_key(t) implies mentions(source, t)
                && !handed.contains(table@[t]) && ids.allocated().contains(table@[t]) by {
                if before.contains_key(t) {
                    assert(table@[t] == before[t]);
                    assert(handed_before.contains(before[t]));
                } else {
                    assert(source[i as int].e == Identifier::Temp(t) || source[i as int].value_ref()
                        == Some(Identifier::Temp(t)));
                }
            }
            assert forall|t: i64, u: i64|
                #![trigger table@[t], table@[u]]
                table@.contains_key(t) && table@.contains_key(u) && t != u implies table@[t]
                != table@[u] by {
                if before.contains_key(t) {
                    assert(table@[t] == before[t]);
                    assert(handed_before.contains(before[t]));
                }
                if before.contains_key(u) {
                    assert(table@[u] == before[u]);
                    assert(handed_before.contains(before[u]));
                }
            }
            assert(handed.subset_of(ids.allocated())) by {
                assert forall|s: i64| handed.contains(s) implies ids.allocated().contains(s) by {
                    assert(handed_before.contains(s));
                }
            }
            if forall|t: i64| !mentions(source, t) {
                assert(covers(before, part)) by {
                    if let Identifier::Temp(t) = part.e {
                        assert(mentions(source, t));
                    }
                    if let Some(Identifier::Temp(t)) = part.value_ref() {
                        assert(mentions(source, t));
                    }
                }
            }
        }
        i += 1;
    }
    proof {
        assert(parts_view(facts@) =~= remap_all(source, table@));
        assert forall|k: int| 0 <= k < facts.len() implies (#[trigger] facts[k])@.is_resolved() by {
            assert(covers(table@, source[k]));
        }
        assert forall|t: i64| mentions(source, t) implies #[trigger] table@.contains_key(t) by {
            let k = choose|k: int|
                0 <= k < source.len() && ((#[trigger] source[k]).e == Identifier::Temp(t)
                    || source[k].value_ref() == Some(Identifier::Temp(t)));
            assert(covers(table@, source[k]));
        }
    }
    Ok((facts, table))
}

/// How many of the facts assert the instant of their transaction.
pub open spec fn instant_count(parts: Seq<TxPartView>) -> nat
    decreases parts.len(),
{
    if parts.len() == 0 {
        0
    } else {
        instant_count(parts.drop_last()) + if parts.last().is_tx_instant() {
            1nat
        } else {
            0nat
        }
    }
}

/// Checks the metadata of a transaction: exactly one of its facts must
/// assert the transaction's instant. More than one is `DuplicateMetadata`,
/// none is `BadRemoteState`.
pub fn check_metadata(parts: &Vec<TxPart>) -> (r: Result<(), TolstoyError>)
    ensures
        instant_count(parts_view(parts@)) == 1 ==> r is Ok,
        instant_count(parts_view(parts@)) == 0 ==> r matches Err(TolstoyError::BadRemoteState(_)),
        instant_count(parts_view(parts@)) > 1 ==> r matches Err(
            TolstoyError::DuplicateMetadata(_),
        ),
{
    let ghost source = parts_view(parts@);
    let mut found: usize = 0;
    let mut i: usize = 0;
    while i < parts.len()
        invariant
            i <= parts.len(),
            source == parts_view(parts@),
            found == instant_count(source.take(i as int)),
            found <= i,
        decreases parts.len() - i,
    {
        proof {
            assert(source.take(i + 1).drop_last() =~= source.take(i as int));
            assert(source.take(i + 1).last() == parts@[i as int]@);
        }
        if parts[i].is_tx_instant() {
            found += 1;
        }
        i += 1;
    }
    assert(source.take(i as int) =~= source);
    if found == 1 {
        Ok(())
    } else if found == 0 {
        Err(TolstoyError::BadRemoteState(String::from_str("transaction without an instant")))
    } else {
        Err(TolstoyError::DuplicateMetadata(String::from_str(":db/txInstant")))
    }
}

/// The identifier that stands in one of the two places of a fact where an
/// entity can be named: its entity, or the reference that its value holds.
pub open spec fn named_in(part: TxPartView, in_value: bool) -> Option<Identifier> {
    if in_value {
        part.value_ref()
    } else {
        Some(part.e)
    }
}

/// Remapping consistency: wherever the facts of one transaction mention a
/// temporary identifier that the table maps, remapping puts the same stable
/// identifier, the one that the table holds for it.
pub proof fn lemma_one_stable_per_temp(
    parts: Seq<TxPartView>,
    m: Map<i64, i64>,
    t: i64,
    i: int,
    i_in_value: bool,
    j: int,
    j_in_value: bool,
)
    requires
        m.contains_key(t),
        0 <= i < parts.len(),
        0 <= j < parts.len(),
        named_in(parts[i], i_in_value) == Some(Identifier::Temp(t)),
        named_in(parts[j], j_in_value) == Some(Identifier::Temp(t)),
    ensures
        named_in(remap_all(parts, m)[i], i_in_value) == Some(Identifier::Stable(m[t])),
        named_in(remap_all(parts, m)[j], j_in_value) == named_in(
            remap_all(parts, m)[i],
            i_in_value,
        ),
{
}

} // verus!

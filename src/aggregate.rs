//! Folding facts into one record per entity.
use vstd::prelude::*;
use crate::fetcher::Payload;
use crate::locator::{locator_identity, ParseError};
use crate::model::{zero_slots, Fact, FactView, Model, SLOT_COUNT};
use crate::parser::{
    colspan_attribute, concentration_fact, selected_cells, totals_selector,
    ConcentrationStrategy, Parser,
};

verus! {

/// Records as plain values: each entity's slot values.
pub type Records = Map<Seq<char>, Seq<int>>;

/// Every fact names a slot that exists.
pub open spec fn valid_facts(facts: Seq<FactView>) -> bool {
    forall|j: int| 0 <= j < facts.len() ==> 0 <= (#[trigger] facts[j]).1 < SLOT_COUNT
}

/// The records after `f`: its entity's record, created with zero slots if
/// new, has slot `f.1` set to `f.2`.
pub open spec fn apply_fact(m: Records, f: FactView) -> Records {
    let base = if m.contains_key(f.0) {
        m[f.0]
    } else {
        zero_slots()
    };
    m.insert(f.0, base.update(f.1, f.2))
}

/// The records after folding `facts` in order into no records.
pub open spec fn fold_facts(facts: Seq<FactView>) -> Records
    decreases facts.len(),
{
    if facts.len() == 0 {
        Map::empty()
    } else {
        apply_fact(fold_facts(facts.drop_last()), facts.last())
    }
}

/// The entities that some fact names.
pub open spec fn fact_entities(facts: Seq<FactView>) -> Set<Seq<char>> {
    Set::new(|id: Seq<char>| exists|j: int| 0 <= j < facts.len() && (#[trigger] facts[j]).0 == id)
}

/// The value of the last fact for slot `k` of `id`, zero if there is none.
pub open spec fn last_value(facts: Seq<FactView>, id: Seq<char>, k: int) -> int
    decreases facts.len(),
{
    if facts.len() == 0 {
        0
    } else if facts.last().0 == id && facts.last().1 == k {
        facts.last().2
    } else {
        last_value(facts.drop_last(), id, k)
    }
}

pub open spec fn record_ids(records: Seq<Model>) -> Seq<Seq<char>> {
    records.map_values(|r: Model| r.stock_id@)
}

/// `records` holds exactly the records of `m`, one per entity, each stamped
/// with `as_of`.
pub open spec fn represents(records: Seq<Model>, m: Records, as_of: Seq<char>) -> bool {
    &&& record_ids(records).no_duplicates()
    &&& record_ids(records).to_set() == m.dom()
    &&& forall|i: int|
        0 <= i < records.len() ==> {
            &&& (#[trigger] records[i]).wf()
            &&& records[i].exchange_date@ == as_of
            &&& m[records[i].stock_id@] == records[i].slots()
        }
}

proof fn lemma_fold(facts: Seq<FactView>)
    requires
        valid_facts(facts),
    ensures
        fold_facts(facts).dom() == fact_entities(facts),
        fold_facts(facts).dom().finite(),
        forall|id: Seq<char>| #[trigger]
            fold_facts(facts).contains_key(id) ==> fold_facts(facts)[id].len() == SLOT_COUNT,
        forall|id: Seq<char>, k: int|
            0 <= k < SLOT_COUNT && fold_facts(facts).contains_key(id) ==> #[trigger] fold_facts(facts)[id][k]
                == last_value(facts, id, k),
        forall|id: Seq<char>, k: int|
            !fold_facts(facts).contains_key(id) ==> #[trigger] last_value(facts, id, k) == 0,
    decreases facts.len(),
{
    if facts.len() == 0 {
        assert(fact_entities(facts) =~= Set::empty());
    } else {
        let prev = facts.drop_last();
        let f = facts.last();
        assert(valid_facts(prev)) by {
            assert forall|j: int| 0 <= j < prev.len() implies 0 <= (#[trigger] prev[j]).1 < SLOT_COUNT by {
                assert(prev[j] == facts[j]);
            }
        }
        assert(0 <= facts[facts.len() - 1].1 < SLOT_COUNT);
        lemma_fold(prev);
        let m = fold_facts(prev);
        assert(fact_entities(facts) =~= fact_entities(prev).insert(f.0)) by {
            assert forall|x: Seq<char>| fact_entities(facts).contains(x) <==> #[trigger] fact_entities(prev).insert(f.0).contains(x) by {
                if fact_entities(facts).contains(x) {
                    let j = choose|j: int| 0 <= j < facts.len() && (#[trigger] facts[j]).0 == x;
                    if j < prev.len() {
                        assert(prev[j] == facts[j]);
                    }
                }
                if fact_entities(prev).contains(x) {
                    let j = choose|j: int| 0 <= j < prev.len() && (#[trigger] prev[j]).0 == x;
                    assert(facts[j] == prev[j]);
                }
                if x == f.0 {
                    assert(facts[facts.len() - 1].0 == x);
                }
            }
        }
        assert(fold_facts(facts).dom() =~= m.dom().insert(f.0));
        assert(fold_facts(facts) == apply_fact(m, f));
        assert forall|id: Seq<char>, k: int|
            0 <= k < SLOT_COUNT && fold_facts(facts).contains_key(id) implies #[trigger] fold_facts(facts)[id][k]
                == last_value(facts, id, k) by {
            if id == f.0 && k != f.1 {
                if !m.contains_key(id) {
                    assert(last_value(prev, id, k) == 0);
                }
            }
        }
        assert forall|id: Seq<char>, k: int|
            !fold_facts(facts).contains_key(id) implies #[trigger] last_value(facts, id, k) == 0 by {
            assert(!m.contains_key(id));
            assert(last_value(prev, id, k) == 0);
        }
    }
}

/// One record per entity: the records of a run are exactly one for each
/// distinct entity that some fact names, never more and never fewer.
pub proof fn lemma_one_record_per_entity(records: Seq<Model>, facts: Seq<FactView>, as_of: Seq<char>)
    requires
        valid_facts(facts),
        represents(records, fold_facts(facts), as_of),
    ensures
        record_ids(records).to_set() == fact_entities(facts),
        records.len() == fact_entities(facts).len(),
{
    lemma_fold(facts);
    record_ids(records).unique_seq_to_set();
}

/// Each slot of an entity's record holds the value of the fact for that
/// entity and slot, the last one if several, and zero if there is none;
/// in particular it holds the value of the unique such fact when there is
/// exactly one.
pub proof fn lemma_slot_holds_its_fact(
    records: Seq<Model>,
    facts: Seq<FactView>,
    as_of: Seq<char>,
    i: int,
    k: int,
)
    requires
        valid_facts(facts),
        represents(records, fold_facts(facts), as_of),
        0 <= i < records.len(),
        0 <= k < SLOT_COUNT,
    ensures
        records[i].slots()[k] == last_value(facts, records[i].stock_id@, k),
        (forall|j: int| 0 <= j < facts.len() ==> !(#[trigger] facts[j].0 == records[i].stock_id@ && facts[j].1 == k))
            ==> records[i].slots()[k] == 0,
        forall|j: int|
            0 <= j < facts.len() && (#[trigger] facts[j]).0 == records[i].stock_id@ && facts[j].1 == k
                && (forall|j2: int|
                0 <= j2 < facts.len() && j2 != j ==> !(facts[j2].0 == records[i].stock_id@
                    && facts[j2].1 == k)) ==> records[i].slots()[k] == facts[j].2,
{
    lemma_fold(facts);
    let id = records[i].stock_id@;
    assert(record_ids(records)[i] == id);
    assert(record_ids(records).to_set().contains(id));
    lemma_last_value_unique(facts, id, k);
}

/// Failures stay with their entity: an entity for which no fact was
/// produced gets no record, while every other entity's record holds its
/// own facts exactly as if the failures had not happened.
pub proof fn lemma_failures_isolated(records: Seq<Model>, facts: Seq<FactView>, as_of: Seq<char>, x: Seq<char>)
    requires
        valid_facts(facts),
        represents(records, fold_facts(facts), as_of),
        forall|j: int| 0 <= j < facts.len() ==> (#[trigger] facts[j]).0 != x,
    ensures
        forall|i: int| 0 <= i < records.len() ==> (#[trigger] records[i]).stock_id@ != x,
        forall|i: int, k: int|
            0 <= i < records.len() && 0 <= k < SLOT_COUNT ==> #[trigger] records[i].slots()[k] == last_value(
                facts,
                records[i].stock_id@,
                k,
            ),
{
    lemma_fold(facts);
    assert forall|i: int| 0 <= i < records.len() implies (#[trigger] records[i]).stock_id@ != x by {
        assert(record_ids(records)[i] == records[i].stock_id@);
        assert(record_ids(records).to_set().contains(records[i].stock_id@));
    }
    assert forall|i: int, k: int|
        0 <= i < records.len() && 0 <= k < SLOT_COUNT implies #[trigger] records[i].slots()[k] == last_value(
            facts,
            records[i].stock_id@,
            k,
        ) by {
        lemma_slot_holds_its_fact(records, facts, as_of, i, k);
    }
}

proof fn lemma_last_value_unique(facts: Seq<FactView>, id: Seq<char>, k: int)
    ensures
        (forall|j: int| 0 <= j < facts.len() ==> !(#[trigger] facts[j].0 == id && facts[j].1 == k))
            ==> last_value(facts, id, k) == 0,
        forall|j: int|
            0 <= j < facts.len() && (#[trigger] facts[j]).0 == id && facts[j].1 == k
                && (forall|j2: int|
                0 <= j2 < facts.len() && j2 != j ==> !(facts[j2].0 == id && facts[j2].1 == k))
                ==> last_value(facts, id, k) == facts[j].2,
    decreases facts.len(),
{
    if facts.len() > 0 {
        let prev = facts.drop_last();
        lemma_last_value_unique(prev, id, k);
        assert forall|j: int|
            0 <= j < facts.len() && (#[trigger] facts[j]).0 == id && facts[j].1 == k
                && (forall|j2: int|
                0 <= j2 < facts.len() && j2 != j ==> !(facts[j2].0 == id && facts[j2].1 == k))
                implies last_value(facts, id, k) == facts[j].2 by {
            if j < prev.len() {
                assert(prev[j] == facts[j]);
                assert forall|j2: int| 0 <= j2 < prev.len() && j2 != j implies !(prev[j2].0 == id && prev[j2].1 == k) by {
                    assert(prev[j2] == facts[j2]);
                }
            }
        }
        if forall|j: int| 0 <= j < facts.len() ==> !(#[trigger] facts[j].0 == id && facts[j].1 == k) {
            assert forall|j: int| 0 <= j < prev.len() implies !(#[trigger] prev[j].0 == id && prev[j].1 == k) by {
                assert(prev[j] == facts[j]);
            }
            assert(facts[facts.len() - 1] == facts.last());
        }
    }
}

/// The fact that `p` yields, or why it yields none.
pub open spec fn payload_fact(p: Payload) -> Result<FactView, ParseError> {
    concentration_fact(
        locator_identity(p.source@),
        selected_cells(p.content@, totals_selector(), colspan_attribute()),
    )
}

/// The facts that `payloads` yield, in order; a payload that yields none is
/// passed over.
pub open spec fn extracted_facts(payloads: Seq<Payload>) -> Seq<FactView>
    decreases payloads.len(),
{
    if payloads.len() == 0 {
        Seq::empty()
    } else {
        match payload_fact(payloads.last()) {
            Ok(f) => extracted_facts(payloads.drop_last()).push(f),
            Err(_) => extracted_facts(payloads.drop_last()),
        }
    }
}

/// The single owner of the records of a run: facts are folded in one at a
/// time.
pub struct Aggregator {
    as_of: String,
    records: Vec<Model>,
    seen: Ghost<Seq<FactView>>,
}

impl Aggregator {
    /// The facts folded in so far, in order.
    pub closed spec fn facts(&self) -> Seq<FactView> {
        self.seen@
    }

    /// The date that new records are stamped with.
    pub closed spec fn as_of(&self) -> Seq<char> {
        self.as_of@
    }

    pub closed spec fn wf(&self) -> bool {
        &&& valid_facts(self.seen@)
        &&& represents(self.records@, fold_facts(self.seen@), self.as_of@)
    }

    /// An aggregator with no records, stamping new ones with `as_of`.
    pub fn new(as_of: String) -> (r: Aggregator)
        ensures
            r.wf(),
            r.facts() == Seq::<FactView>::empty(),
            r.as_of() == as_of@,
    {
        let r = Aggregator { as_of, records: Vec::new(), seen: Ghost(Seq::empty()) };
        assert(record_ids(r.records@).to_set() =~= Set::empty());
        assert(fold_facts(Seq::<FactView>::empty()) =~= Map::empty());
        r
    }

    /// Folds in one fact: its slot of its entity's record takes its value.
    pub fn add(&mut self, fact: Fact)
        requires
            old(self).wf(),
            fact.slot_index < SLOT_COUNT,
        ensures
            final(self).wf(),
            final(self).facts() == old(self).facts().push(fact@),
            final(self).as_of() == old(self).as_of(),
    {
        let ghost old_facts = self.seen@;
        let ghost f = fact@;
        let ghost m = fold_facts(old_facts);
        let ghost new_facts = old_facts.push(f);
        assert(new_facts.drop_last() =~= old_facts);
        assert(fold_facts(new_facts) == apply_fact(m, f));
        let ghost ids = record_ids(self.records@);
        let n = self.records.len();
        let mut i: usize = 0;
        let mut found = false;
        while i < n && !found
            invariant
                n == self.records@.len(),
                ids == record_ids(self.records@),
                i <= n,
                found ==> i < n && self.records@[i as int].stock_id@ == fact.entity_id@,
                !found ==> forall|j: int| 0 <= j < i ==> self.records@[j].stock_id@ != fact.entity_id@,
            decreases n - i + (if found { 0int } else { 1int }),
        {
            if self.records[i].stock_id == fact.entity_id {
                found = true;
            } else {
                i = i + 1;
            }
        }
        let slot = fact.slot_index;
        if found {
            assert(self.records@[i as int].stock_id@ == f.0);
            assert(ids[i as int] == f.0);
            assert(m.contains_key(f.0));
            let ghost before = self.records@;
            self.records[i].concentration[slot] = fact.value;
            proof {
                let after = self.records@;
                assert(after[i as int].slots() =~= before[i as int].slots().update(f.1, f.2));
                assert(record_ids(after) =~= ids);
                assert(fold_facts(new_facts).dom() =~= m.dom());
                assert forall|j: int| 0 <= j < after.len() implies {
                    &&& (#[trigger] after[j]).wf()
                    &&& after[j].exchange_date@ == self.as_of@
                    &&& fold_facts(new_facts)[after[j].stock_id@] == after[j].slots()
                } by {
                    if j != i {
                        assert(after[j] == before[j]);
                        assert(ids[j] != ids[i as int]);
                    }
                }
            }
        } else {
            proof {
                if m.contains_key(f.0) {
                    assert(ids.to_set().contains(f.0));
                    let j = choose|j: int| 0 <= j < ids.len() && ids[j] == f.0;
                    assert(self.records@[j].stock_id@ == f.0);
                }
            }
            let mut record = Model::new(fact.entity_id, self.as_of.clone());
            record.concentration[slot] = fact.value;
            let ghost before = self.records@;
            self.records.push(record);
            proof {
                let after = self.records@;
                assert(record_ids(after) =~= ids.push(f.0));
                assert forall|x: Seq<char>| #[trigger] ids.push(f.0).contains(x) <==> (ids.contains(x) || x == f.0) by {
                    if ids.contains(x) {
                        let j = choose|j: int| 0 <= j < ids.len() && ids[j] == x;
                        assert(ids.push(f.0)[j] == x);
                    }
                    if x == f.0 {
                        assert(ids.push(f.0)[ids.len() as int] == x);
                    }
                    if ids.push(f.0).contains(x) && x != f.0 {
                        let j = choose|j: int| 0 <= j < ids.len() + 1 && ids.push(f.0)[j] == x;
                        assert(ids[j] == x);
                    }
                }
                assert(record_ids(after).to_set() =~= fold_facts(new_facts).dom());
                assert(after[n as int].slots() =~= zero_slots().update(f.1, f.2));
                assert forall|j: int| 0 <= j < after.len() implies {
                    &&& (#[trigger] after[j]).wf()
                    &&& after[j].exchange_date@ == self.as_of@
                    &&& fold_facts(new_facts)[after[j].stock_id@] == after[j].slots()
                } by {
                    if j < n {
                        assert(after[j] == before[j]);
                        assert(ids[j] != f.0);
                    }
                }
            }
        }
        self.seen = Ghost(new_facts);
    }

    /// Extracts the fact of `payload` and folds it in; a payload that
    /// yields no fact leaves the records as they were.
    pub fn absorb(&mut self, parser: &Parser<ConcentrationStrategy>, payload: Payload) -> (r: Result<(), ParseError>)
        requires
            old(self).wf(),
        ensures
            final(self).wf(),
            final(self).as_of() == old(self).as_of(),
            match payload_fact(payload) {
                Ok(f) => r is Ok && final(self).facts() == old(self).facts().push(f),
                Err(e) => r == Err::<(), ParseError>(e) && final(self).facts() == old(self).facts(),
            },
    {
        match parser.parse(payload) {
            Ok(fact) => {
                self.add(fact);
                Ok(())
            },
            Err(e) => Err(e),
        }
    }

    /// The finished records, one per entity that some fact named.
    pub fn into_records(self) -> (r: Vec<Model>)
        requires
            self.wf(),
        ensures
            represents(r@, fold_facts(self.facts()), self.as_of()),
            r@.len() == fold_facts(self.facts()).dom().len(),
    {
        proof {
            record_ids(self.records@).unique_seq_to_set();
        }
        self.records
    }
}

/// The records of a run: the facts of `payloads` folded in order, each new
/// record stamped with `as_of`.
pub fn aggregate(payloads: Vec<Payload>, as_of: String) -> (r: Vec<Model>)
    ensures
        valid_facts(extracted_facts(payloads@)),
        represents(r@, fold_facts(extracted_facts(payloads@)), as_of@),
        r@.len() == fold_facts(extracted_facts(payloads@)).dom().len(),
{
    let ghost all = payloads@;
    let total = payloads.len();
    let ghost stamp = as_of@;
    let parser = Parser::new(ConcentrationStrategy);
    let mut aggregator = Aggregator::new(as_of);
    let mut rest = payloads;
    let mut k: usize = 0;
    while rest.len() > 0
        invariant
            k <= all.len(),
            rest@ == all.skip(k as int),
            rest@.len() == all.len() - k,
            total == all.len(),
            aggregator.wf(),
            aggregator.as_of() == stamp,
            aggregator.facts() == extracted_facts(all.take(k as int)),
        decreases rest@.len(),
    {
        let payload = rest.remove(0);
        assert(all.take(k + 1).drop_last() =~= all.take(k as int));
        assert(all.take(k + 1).last() == payload);
        let _ = aggregator.absorb(&parser, payload);
        assert(rest@ =~= all.skip(k + 1));
        k = k + 1;
    }
    assert(all.take(k as int) =~= all);
    aggregator.into_records()
}

} // verus!

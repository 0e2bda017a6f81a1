//! The append-only moral ledger: a single-writer sequence of hash-chained
//! deed records. Every committed prefix stays valid; content policy is
//! checked before a candidate ever reaches the chain.

use crate::codec::{
    canon_of_view, decode_line, lemma_canon_of_view, line_fuel, p_record, record_readable,
    record_view, value_view, RecordView, VView,
};
use crate::hash::{genesis_hash, genesis_seq, sha256_hex_of};
use crate::record::{category_name, record_wf, DeedEvent};
use crate::validator::{chain_valid, content_ok, validate_chain, LedgerValidator, ValidationError};
use crate::value::{value_wf, Value};
use vstd::prelude::*;
use vstd::string::StringExecFns;

verus! {

/// The expected `prev_hash` of the next record.
pub open spec fn tail_hash_spec(s: Seq<DeedEvent>) -> Seq<char> {
    if s.len() == 0 {
        genesis_seq()
    } else {
        s.last().self_hash@
    }
}

/// The in-memory, append-only ledger. Records only ever enter at the
/// tail, already chained and content-checked; none is ever mutated or
/// removed.
pub struct MoralLedger {
    pub records: Vec<DeedEvent>,
}

/// The ledger's invariant: the whole chain is valid.
pub open spec fn ledger_wf(l: MoralLedger) -> bool {
    chain_valid(l.records@)
}

impl MoralLedger {
    /// An empty ledger, whose tail is the genesis sentinel.
    pub fn new() -> (r: MoralLedger)
        ensures
            r.records@.len() == 0,
            ledger_wf(r),
    {
        MoralLedger { records: Vec::new() }
    }

    /// The number of committed records.
    pub fn len(&self) -> (r: usize)
        ensures
            r == self.records@.len(),
    {
        self.records.len()
    }

    /// The genesis sentinel if the ledger is empty, else the last
    /// committed record's `self_hash`.
    pub fn tail_hash(&self) -> (r: String)
        ensures
            r@ == tail_hash_spec(self.records@),
    {
        if self.records.len() == 0 {
            genesis_hash()
        } else {
            self.records[self.records.len() - 1].self_hash.clone()
        }
    }

    /// Builds, checks and commits one record: content policy first (a
    /// rejected record never reaches the chain), then hash-links the
    /// record onto the current tail. Returns the new record's
    /// `self_hash`. The chain stays valid either way.
    pub fn append(
        &mut self,
        actor_id: String,
        target_ids: Vec<String>,
        deed_type: String,
        tags: Vec<String>,
        context_json: Value,
        ethics_flags: Vec<String>,
        life_harm_flag: bool,
    ) -> (r: Result<String, ValidationError>)
        requires
            ledger_wf(*old(self)),
            value_wf(context_json),
        ensures
            ledger_wf(*final(self)),
            r is Ok ==> {
                &&& final(self).records@.len() == old(self).records@.len() + 1
                &&& final(self).records@.take(old(self).records@.len() as int) == old(
                    self,
                ).records@
                &&& final(self).records@.last().prev_hash@ == tail_hash_spec(old(self).records@)
                &&& final(self).records@.last().actor_id == actor_id
                &&& category_name(final(self).records@.last().category) == deed_type@
                &&& final(self).records@.last().tags == tags
                &&& final(self).records@.last().target_ids == target_ids
                &&& final(self).records@.last().context_json == context_json
                &&& final(self).records@.last().ethics_flags == ethics_flags
                &&& final(self).records@.last().life_harm_flag == life_harm_flag
                &&& final(self).records@.last().event_id@.len() == 36
                &&& content_ok(final(self).records@.last())
                &&& record_wf(final(self).records@.last())
                &&& r->Ok_0@ == final(self).records@.last().self_hash@
                &&& r->Ok_0@.len() == 64
            },
            r is Err ==> final(self).records@ == old(self).records@,
            r is Ok <==> (!life_harm_flag && ethics_flags@.len() == 0),
    {
        let prev = self.tail_hash();
        let event = DeedEvent::new(
            prev,
            actor_id,
            target_ids,
            deed_type,
            tags,
            context_json,
            ethics_flags,
            life_harm_flag,
        );
        match LedgerValidator::validate_content(&event) {
            Ok(()) => {},
            Err(e) => {
                return Err(e);
            },
        }
        let self_hash = event.self_hash.clone();
        let ghost before = self.records@;
        self.records.push(event);
        proof {
            assert(self.records@.take(before.len() as int) =~= before);
            assert forall|i: int| 0 <= i < self.records@.len() implies ((
            #[trigger] self.records@[i]).prev_hash@ == (if i == 0 {
                genesis_seq()
            } else {
                self.records@[i - 1].self_hash@
            }) && self.records@[i].self_hash@ == crate::hash::sha256_hex_of(
                crate::record::canon_text(self.records@[i]),
            )) by {
                if i < before.len() {
                    assert(self.records@[i] == before[i]);
                    if i > 0 {
                        assert(self.records@[i - 1] == before[i - 1]);
                    }
                } else {
                    assert(self.records@[i] == self.records@.last());
                    if i > 0 {
                        assert(self.records@[i - 1] == before[i - 1]);
                        assert(before[i - 1] == before.last());
                    }
                }
            }
        }
        Ok(self_hash)
    }
}


/// A stored line that reads back to a materializable record view.
pub open spec fn line_readable(s: Seq<char>) -> bool {
    match p_record(s, line_fuel(s)) {
        Some(rv) => record_readable(rv),
        None => false,
    }
}

/// The view a stored line determines.
pub open spec fn line_view(s: Seq<char>) -> RecordView {
    p_record(s, line_fuel(s))->Some_0
}

pub open spec fn line_views(lines: Seq<String>) -> Seq<RecordView> {
    Seq::new(lines.len(), |i: int| line_view(lines[i]@))
}

/// A sequence of parsed line views forms a valid chain: each links to its
/// predecessor (the genesis sentinel first) and each self-hash is the
/// digest of the canonical text its view determines.
pub open spec fn chain_valid_views(rvs: Seq<RecordView>) -> bool {
    forall|i: int|
        0 <= i < rvs.len() ==> ((#[trigger] rvs[i]).prev_hash == (if i == 0 {
            genesis_seq()
        } else {
            rvs[i - 1].self_hash
        }) && rvs[i].self_hash == sha256_hex_of(canon_of_view(rvs[i])))
}

/// Rebuilds a ledger from persisted lines: every line must read back and
/// the re-derived chain must validate from genesis; otherwise nothing is
/// trusted and nothing is returned. Refusal is never gratuitous: it means
/// some line is unreadable or the read-back views do not chain.
pub fn reload_ledger(lines: &Vec<String>) -> (r: Option<MoralLedger>)
    ensures
        match r {
            Some(l) => {
                &&& ledger_wf(l)
                &&& l.records@.len() == lines@.len()
                &&& forall|i: int|
                    0 <= i < lines@.len() ==> p_record(
                        (#[trigger] lines@[i])@,
                        line_fuel(lines@[i]@),
                    ) == Some(record_view(l.records@[i]))
            },
            None => (exists|i: int|
                0 <= i < lines@.len() && !line_readable((#[trigger] lines@[i])@))
                || !chain_valid_views(line_views(lines@)),
        },
{
    let mut records: Vec<DeedEvent> = Vec::new();
    let mut i: usize = 0;
    while i < lines.len()
        invariant
            i <= lines@.len(),
            records@.len() == i,
            forall|j: int|
                0 <= j < i ==> p_record((#[trigger] lines@[j])@, line_fuel(lines@[j]@)) == Some(
                    record_view(records@[j]),
                ),
        decreases lines@.len() - i,
    {
        match decode_line(lines[i].as_str()) {
            Some(ev) => {
                records.push(ev);
            },
            None => {
                proof {
                    assert(!line_readable(lines@[i as int]@));
                }
                return None;
            },
        }
        i = i + 1;
    }
    if !validate_chain(&records) {
        proof {
            let views = line_views(lines@);
            assert(views.len() == records@.len());
            if chain_valid_views(views) {
                assert forall|k: int| 0 <= k < records@.len() implies ((
                #[trigger] records@[k]).prev_hash@ == (if k == 0 {
                    genesis_seq()
                } else {
                    records@[k - 1].self_hash@
                }) && records@[k].self_hash@ == sha256_hex_of(
                    crate::record::canon_text(records@[k]),
                )) by {
                    assert(views[k] == record_view(records@[k]));
                    lemma_canon_of_view(records@[k]);
                    if k > 0 {
                        assert(views[k - 1] == record_view(records@[k - 1]));
                    }
                }
                assert(chain_valid(records@));
            }
        }
        return None;
    }
    Some(MoralLedger { records })
}


/// Records a verified ecological cleanup deed with its evidence link.
/// A clean deed of this shape is always accepted.
pub fn log_ecological_cleanup(
    ledger: &mut MoralLedger,
    actor_id: String,
    evidence_url: String,
) -> (r: Result<String, ValidationError>)
    requires
        ledger_wf(*old(ledger)),
    ensures
        ledger_wf(*final(ledger)),
        r is Ok,
        final(ledger).records@.len() == old(ledger).records@.len() + 1,
        final(ledger).records@.take(old(ledger).records@.len() as int) == old(ledger).records@,
        content_ok(final(ledger).records@.last()),
        final(ledger).records@.last().actor_id == actor_id,
        category_name(final(ledger).records@.last().category)
            == "ecological_sustainability"@,
        final(ledger).records@.last().tags@.len() == 2,
        final(ledger).records@.last().tags@[0]@ == "reforestation"@,
        final(ledger).records@.last().tags@[1]@ == "carbon_negative"@,
        final(ledger).records@.last().target_ids@.len() == 0,
        value_view(final(ledger).records@.last().context_json) == (VView::Obj(
            seq![("evidence_url"@, VView::Str(evidence_url@))],
        )),
{
    let mut ctx_pairs: Vec<(String, Value)> = Vec::new();
    ctx_pairs.push((String::from_str("evidence_url"), Value::Str(evidence_url)));
    let ctx = Value::Obj(ctx_pairs);
    proof {
        match &ctx {
            Value::Obj(ps) => {
                assert(crate::value::keys_sorted(ps@));
                assert(crate::value::value_wf(ps@[0].1));
                assert(ps@.skip(1) =~= Seq::<(String, Value)>::empty());
                assert(crate::value::all_pairs_wf(ps@.skip(1)));
                assert(crate::value::all_pairs_wf(ps@));
            },
            _ => {},
        }
        assert(value_wf(ctx));
    }
    proof {
        match &ctx {
            Value::Obj(ps) => {
                assert(value_view(ps@[0].1) == VView::Str(evidence_url@));
                assert(crate::codec::view_pairs(ps@.skip(1)) =~= Seq::<
                    (Seq<char>, VView),
                >::empty());
                assert(crate::codec::view_pairs(ps@) =~= seq![
                    ("evidence_url"@, VView::Str(evidence_url@)),
                ]);
            },
            _ => {},
        }
        assert(value_view(ctx) == (VView::Obj(seq![("evidence_url"@, VView::Str(evidence_url@))])));
    }
    let mut tags: Vec<String> = Vec::new();
    tags.push(String::from_str("reforestation"));
    tags.push(String::from_str("carbon_negative"));
    ledger.append(
        actor_id,
        Vec::new(),
        String::from_str("ecological_sustainability"),
        tags,
        ctx,
        Vec::new(),
        false,
    )
}

/// Records an open-source contribution deed. A clean deed of this shape
/// is always accepted.
pub fn log_open_source_contribution(
    ledger: &mut MoralLedger,
    actor_id: String,
    crate_name: String,
) -> (r: Result<String, ValidationError>)
    requires
        ledger_wf(*old(ledger)),
    ensures
        ledger_wf(*final(ledger)),
        r is Ok,
        final(ledger).records@.len() == old(ledger).records@.len() + 1,
        final(ledger).records@.take(old(ledger).records@.len() as int) == old(ledger).records@,
        content_ok(final(ledger).records@.last()),
        final(ledger).records@.last().actor_id == actor_id,
        category_name(final(ledger).records@.last().category) == "math_science_education"@,
        final(ledger).records@.last().tags@.len() == 2,
        final(ledger).records@.last().tags@[0]@ == "open_source"@,
        final(ledger).records@.last().tags@[1]@ == "rust"@,
        final(ledger).records@.last().target_ids@.len() == 0,
        value_view(final(ledger).records@.last().context_json) == (VView::Obj(
            seq![
                ("crate"@, VView::Str(crate_name@)),
                ("license"@, VView::Str("MIT/Apache-2.0"@)),
            ],
        )),
{
    let mut ctx_pairs: Vec<(String, Value)> = Vec::new();
    ctx_pairs.push((String::from_str("crate"), Value::Str(crate_name)));
    ctx_pairs.push((String::from_str("license"), Value::Str(String::from_str("MIT/Apache-2.0"))));
    let ctx = Value::Obj(ctx_pairs);
    proof {
        reveal_strlit("crate");
        reveal_strlit("license");
        match &ctx {
            Value::Obj(ps) => {
                assert(ps@[0].0@[0] == 'c' && ps@[1].0@[0] == 'l');
                assert(crate::value::seq_lt(ps@[0].0@, ps@[1].0@));
                assert(crate::value::keys_sorted(ps@));
                assert(crate::value::value_wf(ps@[0].1));
                assert(crate::value::value_wf(ps@[1].1));
                assert(ps@.skip(1)[0] == ps@[1]);
                assert(ps@.skip(1).skip(1) =~= Seq::<(String, Value)>::empty());
                assert(crate::value::all_pairs_wf(ps@.skip(1).skip(1)));
                assert(crate::value::all_pairs_wf(ps@.skip(1)));
                assert(crate::value::all_pairs_wf(ps@));
            },
            _ => {},
        }
        assert(value_wf(ctx));
    }
    proof {
        match &ctx {
            Value::Obj(ps) => {
                assert(ps@.len() == 2);
                assert(value_view(ps@[0].1) == VView::Str(crate_name@));
                assert(value_view(ps@[1].1) == VView::Str("MIT/Apache-2.0"@));
                assert(ps@.skip(1)[0] == ps@[1]);
                assert(ps@.skip(1).skip(1) =~= Seq::<(String, Value)>::empty());
                assert(crate::codec::view_pairs(ps@.skip(1).skip(1)) =~= Seq::<
                    (Seq<char>, VView),
                >::empty());
                assert(crate::codec::view_pairs(ps@.skip(1)) =~= seq![
                    ("license"@, VView::Str("MIT/Apache-2.0"@)),
                ]);
                assert(crate::codec::view_pairs(ps@) =~= seq![
                    ("crate"@, VView::Str(crate_name@)),
                    ("license"@, VView::Str("MIT/Apache-2.0"@)),
                ]);
            },
            _ => {},
        }
        assert(value_view(ctx) == (VView::Obj(
            seq![
                ("crate"@, VView::Str(crate_name@)),
                ("license"@, VView::Str("MIT/Apache-2.0"@)),
            ],
        )));
    }
    let mut tags: Vec<String> = Vec::new();
    tags.push(String::from_str("open_source"));
    tags.push(String::from_str("rust"));
    ledger.append(
        actor_id,
        Vec::new(),
        String::from_str("math_science_education"),
        tags,
        ctx,
        Vec::new(),
        false,
    )
}

} // verus!

//! The deed event record: an immutable, hash-chained row of the moral
//! ledger, its canonical text and its self-hash.

use crate::hash::{is_hex_lower, sha256_hex, sha256_hex_of};
use crate::strutil::str_eq;
use crate::util::{fresh_event_id, now_timestamp};
use crate::value::{
    quoted, value_text, value_wf, write_int, write_quoted, write_value, int_text, Value,
};
use vstd::prelude::*;
use vstd::string::StrSliceExecFns;
use vstd::string::StringExecFns;

verus! {

/// CHURCH token recommendation per verified good deed (advisory only).
pub const CHURCH_RECOMMEND_PER_GOOD_DEED: u64 = 1;

/// The deed kind: the enumerated kinds that can earn a recommendation,
/// with an open fallback for every other kind.
#[derive(Clone, Debug)]
pub enum Category {
    EcologicalSustainability,
    HomelessnessRelief,
    MathScienceEducation,
    Other(String),
}

/// The canonical name under which a category is serialized.
pub open spec fn category_name(c: Category) -> Seq<char> {
    match c {
        Category::EcologicalSustainability => "ecological_sustainability"@,
        Category::HomelessnessRelief => "homelessness_relief"@,
        Category::MathScienceEducation => "math_science_education"@,
        Category::Other(s) => s@,
    }
}

/// An open-fallback category never shadows an enumerated name, so names
/// identify categories.
pub open spec fn category_wf(c: Category) -> bool {
    match c {
        Category::Other(s) => s@ != "ecological_sustainability"@ && s@ != "homelessness_relief"@
            && s@ != "math_science_education"@,
        _ => true,
    }
}

/// Reads a category from its name: an enumerated kind for the three known
/// names, the open fallback otherwise.
pub fn parse_category(name: String) -> (c: Category)
    ensures
        category_name(c) == name@,
        category_wf(c),
{
    if str_eq(name.as_str(), "ecological_sustainability") {
        Category::EcologicalSustainability
    } else if str_eq(name.as_str(), "homelessness_relief") {
        Category::HomelessnessRelief
    } else if str_eq(name.as_str(), "math_science_education") {
        Category::MathScienceEducation
    } else {
        Category::Other(name)
    }
}

/// A well-formed category bearing an enumerated name is that variant.
proof fn lemma_named_category_is_variant(c: Category)
    requires
        category_wf(c),
    ensures
        category_name(c) == "ecological_sustainability"@ ==> c is EcologicalSustainability,
        category_name(c) == "homelessness_relief"@ ==> c is HomelessnessRelief,
        category_name(c) == "math_science_education"@ ==> c is MathScienceEducation,
{
    reveal_strlit("ecological_sustainability");
    reveal_strlit("homelessness_relief");
    reveal_strlit("math_science_education");
    assert(("ecological_sustainability"@).len() == 25);
    assert(("homelessness_relief"@).len() == 19);
    assert(("math_science_education"@).len() == 22);
}

/// One attested deed, immutable once constructed. `self_hash` commits to
/// every other field through the canonical text.
#[derive(Clone, Debug)]
pub struct DeedEvent {
    pub event_id: String,
    pub timestamp: i64,
    pub prev_hash: String,
    pub self_hash: String,
    pub actor_id: String,
    pub target_ids: Vec<String>,
    pub category: Category,
    pub tags: Vec<String>,
    pub context_json: Value,
    pub ethics_flags: Vec<String>,
    pub life_harm_flag: bool,
}

/// The canonical text of a list of strings.
pub open spec fn str_items_text(l: Seq<String>) -> Seq<char>
    decreases l.len(),
{
    if l.len() == 0 {
        Seq::empty()
    } else if l.len() == 1 {
        quoted(l[0]@)
    } else {
        quoted(l[0]@) + seq![','] + str_items_text(l.skip(1))
    }
}

pub open spec fn str_list_text(l: Seq<String>) -> Seq<char> {
    seq!['['] + str_items_text(l) + seq![']']
}

pub open spec fn bool_text(b: bool) -> Seq<char> {
    if b {
        seq!['t', 'r', 'u', 'e']
    } else {
        seq!['f', 'a', 'l', 's', 'e']
    }
}

/// The canonical text of a record, `self_hash` excluded, keys in fixed
/// lexicographic order. The self-hash is the digest of exactly this text.
#[verifier::opaque]
pub open spec fn canon_text(d: DeedEvent) -> Seq<char> {
    "{\"actor_id\":"@ + quoted(d.actor_id@) + ",\"context_json\":"@ + value_text(d.context_json)
        + ",\"deed_type\":"@ + quoted(category_name(d.category)) + ",\"ethics_flags\":"@
        + str_list_text(d.ethics_flags@) + ",\"event_id\":"@ + quoted(d.event_id@)
        + ",\"life_harm_flag\":"@ + bool_text(d.life_harm_flag) + ",\"prev_hash\":"@ + quoted(
        d.prev_hash@,
    ) + ",\"tags\":"@ + str_list_text(d.tags@) + ",\"target_ids\":"@ + str_list_text(
        d.target_ids@,
    ) + ",\"timestamp\":"@ + int_text(d.timestamp as int) + "}"@
}

/// The persisted line of a record: the canonical text with `self_hash`
/// added in its key's place.
pub open spec fn line_text(d: DeedEvent) -> Seq<char> {
    "{\"actor_id\":"@ + quoted(d.actor_id@) + ",\"context_json\":"@ + value_text(d.context_json)
        + ",\"deed_type\":"@ + quoted(category_name(d.category)) + ",\"ethics_flags\":"@
        + str_list_text(d.ethics_flags@) + ",\"event_id\":"@ + quoted(d.event_id@)
        + ",\"life_harm_flag\":"@ + bool_text(d.life_harm_flag) + ",\"prev_hash\":"@ + quoted(
        d.prev_hash@,
    ) + ",\"self_hash\":"@ + quoted(d.self_hash@) + ",\"tags\":"@ + str_list_text(d.tags@)
        + ",\"target_ids\":"@ + str_list_text(d.target_ids@) + ",\"timestamp\":"@ + int_text(
        d.timestamp as int,
    ) + "}"@
}

/// The record's payload is well formed and its category name canonical.
pub open spec fn record_wf(d: DeedEvent) -> bool {
    category_wf(d.category) && value_wf(d.context_json)
}

/// The record's self-hash is the digest of its canonical text.
pub open spec fn self_hash_ok(d: DeedEvent) -> bool {
    d.self_hash@ == sha256_hex_of(canon_text(d))
}

fn write_str_items(v: &Vec<String>, i: usize, out: &mut String)
    requires
        i <= v@.len(),
    ensures
        final(out)@ == old(out)@ + str_items_text(v@.skip(i as int)),
    decreases v@.len() - i,
{
    if i < v.len() {
        proof {
            assert(v@.skip(i as int)[0] == v@[i as int]);
        }
        write_quoted(v[i].as_str(), out);
        if i + 1 < v.len() {
            out.push(',');
            proof {
                assert(v@.skip(i as int).skip(1) =~= v@.skip(i + 1));
            }
            write_str_items(v, i + 1, out);
            proof {
                assert(final(out)@ =~= old(out)@ + str_items_text(v@.skip(i as int)));
            }
        } else {
            proof {
                assert(v@.skip(i as int).len() == 1);
                assert(final(out)@ =~= old(out)@ + str_items_text(v@.skip(i as int)));
            }
        }
    } else {
        proof {
            assert(v@.skip(i as int).len() == 0);
            assert(final(out)@ =~= old(out)@ + str_items_text(v@.skip(i as int)));
        }
    }
}

/// Writes the canonical text of a string list onto `out`.
pub fn write_str_list(v: &Vec<String>, out: &mut String)
    ensures
        final(out)@ == old(out)@ + str_list_text(v@),
{
    out.push('[');
    proof {
        assert(v@.skip(0) =~= v@);
    }
    write_str_items(v, 0, out);
    out.push(']');
    proof {
        assert(final(out)@ =~= old(out)@ + str_list_text(v@));
    }
}

/// Writes the canonical text of a boolean onto `out`.
pub fn write_bool(b: bool, out: &mut String)
    ensures
        final(out)@ == old(out)@ + bool_text(b),
{
    if b {
        proof {
            reveal_strlit("true");
        }
        out.append("true");
        proof {
            assert("true"@ =~= seq!['t', 'r', 'u', 'e']);
        }
    } else {
        proof {
            reveal_strlit("false");
        }
        out.append("false");
        proof {
            assert("false"@ =~= seq!['f', 'a', 'l', 's', 'e']);
        }
    }
}

impl DeedEvent {
    /// The category's canonical name, as a fresh string.
    pub fn category_string(&self) -> (r: String)
        ensures
            r@ == category_name(self.category),
    {
        match &self.category {
            Category::EcologicalSustainability => String::from_str("ecological_sustainability"),
            Category::HomelessnessRelief => String::from_str("homelessness_relief"),
            Category::MathScienceEducation => String::from_str("math_science_education"),
            Category::Other(s) => s.clone(),
        }
    }

    /// The canonical serialization for hashing: every field except
    /// `self_hash`, keys sorted, payload keys recursively sorted.
    pub fn canonical_json(&self) -> (r: String)
        ensures
            r@ == canon_text(*self),
    {
        let mut out = String::new();
        out.append("{\"actor_id\":");
        write_quoted(self.actor_id.as_str(), &mut out);
        out.append(",\"context_json\":");
        write_value(&self.context_json, &mut out);
        out.append(",\"deed_type\":");
        let cat = self.category_string();
        write_quoted(cat.as_str(), &mut out);
        out.append(",\"ethics_flags\":");
        write_str_list(&self.ethics_flags, &mut out);
        out.append(",\"event_id\":");
        write_quoted(self.event_id.as_str(), &mut out);
        out.append(",\"life_harm_flag\":");
        write_bool(self.life_harm_flag, &mut out);
        out.append(",\"prev_hash\":");
        write_quoted(self.prev_hash.as_str(), &mut out);
        out.append(",\"tags\":");
        write_str_list(&self.tags, &mut out);
        out.append(",\"target_ids\":");
        write_str_list(&self.target_ids, &mut out);
        out.append(",\"timestamp\":");
        write_int(self.timestamp, &mut out);
        out.append("}");
        proof {
            reveal(canon_text);
            assert(out@ =~= canon_text(*self));
        }
        out
    }

    /// The persisted line: the canonical text with `self_hash` included.
    pub fn line_json(&self) -> (r: String)
        ensures
            r@ == line_text(*self),
    {
        let mut out = String::new();
        out.append("{\"actor_id\":");
        write_quoted(self.actor_id.as_str(), &mut out);
        out.append(",\"context_json\":");
        write_value(&self.context_json, &mut out);
        out.append(",\"deed_type\":");
        let cat = self.category_string();
        write_quoted(cat.as_str(), &mut out);
        out.append(",\"ethics_flags\":");
        write_str_list(&self.ethics_flags, &mut out);
        out.append(",\"event_id\":");
        write_quoted(self.event_id.as_str(), &mut out);
        out.append(",\"life_harm_flag\":");
        write_bool(self.life_harm_flag, &mut out);
        out.append(",\"prev_hash\":");
        write_quoted(self.prev_hash.as_str(), &mut out);
        out.append(",\"self_hash\":");
        write_quoted(self.self_hash.as_str(), &mut out);
        out.append(",\"tags\":");
        write_str_list(&self.tags, &mut out);
        out.append(",\"target_ids\":");
        write_str_list(&self.target_ids, &mut out);
        out.append(",\"timestamp\":");
        write_int(self.timestamp, &mut out);
        out.append("}");
        proof {
            assert(out@ =~= line_text(*self));
        }
        out
    }

    /// The digest of the canonical text: what `self_hash` must equal —
    /// always 64 lower-case hex characters.
    pub fn compute_self_hash(&self) -> (r: String)
        ensures
            r@ == sha256_hex_of(canon_text(*self)),
            r@.len() == 64,
            forall|i: int| 0 <= i < r@.len() ==> is_hex_lower(#[trigger] r@[i]),
    {
        let canonical = self.canonical_json();
        sha256_hex(canonical.as_str())
    }

    /// Creates a record: assigns a fresh id and the current timestamp,
    /// then computes the self-hash of the canonical text. The record is
    /// never mutated afterwards.
    pub fn new(
        prev_hash: String,
        actor_id: String,
        target_ids: Vec<String>,
        deed_type: String,
        tags: Vec<String>,
        context_json: Value,
        ethics_flags: Vec<String>,
        life_harm_flag: bool,
    ) -> (r: DeedEvent)
        requires
            value_wf(context_json),
        ensures
            r.prev_hash == prev_hash,
            r.actor_id == actor_id,
            r.target_ids == target_ids,
            category_name(r.category) == deed_type@,
            r.tags == tags,
            r.context_json == context_json,
            r.ethics_flags == ethics_flags,
            r.life_harm_flag == life_harm_flag,
            r.event_id@.len() == 36,
            r.self_hash@.len() == 64,
            forall|i: int| 0 <= i < r.self_hash@.len() ==> is_hex_lower(#[trigger] r.self_hash@[i]),
            record_wf(r),
            self_hash_ok(r),
    {
        let event_id = fresh_event_id();
        let timestamp = now_timestamp();
        let mut r = DeedEvent {
            event_id,
            timestamp,
            prev_hash,
            self_hash: String::new(),
            actor_id,
            target_ids,
            category: parse_category(deed_type),
            tags,
            context_json,
            ethics_flags,
            life_harm_flag,
        };
        let h = r.compute_self_hash();
        let ghost before = r;
        r.self_hash = h;
        proof {
            reveal(canon_text);
            assert(canon_text(r) == canon_text(before));
        }
        r
    }

    /// A reforestation deed with its evidence link, not yet chained:
    /// `finalize_hash_chain` links it once the tail is known.
    pub fn new_ecological_sustainability(actor_id: String, evidence_url: String) -> (r: DeedEvent)
        ensures
            r.category == Category::EcologicalSustainability,
            r.actor_id == actor_id,
            r.tags@.len() == 2,
            r.tags@[0]@ == "reforestation"@,
            r.tags@[1]@ == "carbon_negative"@,
            r.ethics_flags@.len() == 0,
            !r.life_harm_flag,
            record_wf(r),
            self_hash_ok(r),
    {
        let mut ctx_pairs: Vec<(String, Value)> = Vec::new();
        ctx_pairs.push((String::from_str("evidence_url"), Value::Str(evidence_url)));
        let ctx = Value::Obj(ctx_pairs);
        proof {
            match &ctx {
                Value::Obj(ps) => {
                    assert(ps@.len() == 1);
                    assert(crate::value::keys_sorted(ps@));
                    assert(value_wf(ps@[0].1));
                    assert(ps@.skip(1) =~= Seq::<(String, Value)>::empty());
                    assert(crate::value::all_pairs_wf(ps@.skip(1)));
                    assert(crate::value::all_pairs_wf(ps@));
                },
                _ => {},
            }
            assert(value_wf(ctx));
        }
        let mut tags: Vec<String> = Vec::new();
        tags.push(String::from_str("reforestation"));
        tags.push(String::from_str("carbon_negative"));
        let r = DeedEvent::new(
            String::new(),
            actor_id,
            Vec::new(),
            String::from_str("ecological_sustainability"),
            tags,
            ctx,
            Vec::new(),
            false,
        );
        proof {
            lemma_named_category_is_variant(r.category);
        }
        r
    }

    /// An open-source contribution deed, not yet chained.
    pub fn new_math_science_education(actor_id: String, crate_name: String) -> (r: DeedEvent)
        ensures
            r.category == Category::MathScienceEducation,
            r.actor_id == actor_id,
            r.tags@.len() == 2,
            r.tags@[0]@ == "open_source"@,
            r.tags@[1]@ == "rust"@,
            r.ethics_flags@.len() == 0,
            !r.life_harm_flag,
            record_wf(r),
            self_hash_ok(r),
    {
        let mut ctx_pairs: Vec<(String, Value)> = Vec::new();
        ctx_pairs.push((String::from_str("crate"), Value::Str(crate_name)));
        ctx_pairs.push((String::from_str("license"), Value::Str(String::from_str(
            "MIT/Apache-2.0",
        ))));
        let ctx = Value::Obj(ctx_pairs);
        proof {
            reveal_strlit("crate");
            reveal_strlit("license");
            match &ctx {
                Value::Obj(ps) => {
                    assert(ps@.len() == 2);
                    assert(ps@[0].0@[0] == 'c' && ps@[1].0@[0] == 'l');
                    assert(crate::value::seq_lt(ps@[0].0@, ps@[1].0@));
                    assert(crate::value::keys_sorted(ps@));
                    assert(value_wf(ps@[0].1));
                    assert(value_wf(ps@[1].1));
                    assert(ps@.skip(1)[0] == ps@[1]);
                    assert(ps@.skip(1).skip(1) =~= Seq::<(String, Value)>::empty());
                    assert(crate::value::all_pairs_wf(ps@.skip(1).skip(1)));
                    assert(crate::value::all_pairs_wf(ps@.skip(1)));
                    assert(crate::value::all_pairs_wf(ps@));
                },
                _ => {},
            }
            assert(value_wf(ctx));
        }
        let mut tags: Vec<String> = Vec::new();
        tags.push(String::from_str("open_source"));
        tags.push(String::from_str("rust"));
        let r = DeedEvent::new(
            String::new(),
            actor_id,
            Vec::new(),
            String::from_str("math_science_education"),
            tags,
            ctx,
            Vec::new(),
            false,
        );
        proof {
            lemma_named_category_is_variant(r.category);
        }
        r
    }

    /// Chains the record onto a predecessor: sets `prev_hash` and
    /// recomputes the self-hash. Called by the ledger once the tail
    /// hash is known.
    pub fn finalize_hash_chain(self, prev_hash: String) -> (r: DeedEvent)
        ensures
            r.prev_hash == prev_hash,
            r.actor_id == self.actor_id,
            r.target_ids == self.target_ids,
            r.category == self.category,
            r.tags == self.tags,
            r.context_json == self.context_json,
            r.ethics_flags == self.ethics_flags,
            r.life_harm_flag == self.life_harm_flag,
            r.event_id == self.event_id,
            r.timestamp == self.timestamp,
            r.self_hash@.len() == 64,
            forall|i: int| 0 <= i < r.self_hash@.len() ==> is_hex_lower(#[trigger] r.self_hash@[i]),
            self_hash_ok(r),
    {
        let mut r = self;
        r.prev_hash = prev_hash;
        let h = r.compute_self_hash();
        let ghost before = r;
        r.self_hash = h;
        proof {
            reveal(canon_text);
            assert(canon_text(r) == canon_text(before));
        }
        r
    }

    /// Advisory CHURCH recommendation: zero for any harm or ethics flag,
    /// one unit for the enumerated good deeds, zero otherwise. Never an
    /// automatic mint.
    pub fn church_recommendation(&self) -> (r: u64)
        ensures
            r == spec_church_recommendation(*self),
            self.life_harm_flag ==> r == 0,
            self.ethics_flags@.len() > 0 ==> r == 0,
    {
        if self.life_harm_flag {
            return 0;
        }
        if self.ethics_flags.len() > 0 {
            return 0;
        }
        match &self.category {
            Category::EcologicalSustainability => CHURCH_RECOMMEND_PER_GOOD_DEED,
            Category::HomelessnessRelief => CHURCH_RECOMMEND_PER_GOOD_DEED,
            Category::MathScienceEducation => CHURCH_RECOMMEND_PER_GOOD_DEED,
            Category::Other(_) => 0,
        }
    }
}

/// The advisory recommendation a record earns: a record with the harm
/// flag, or with any ethics flag, always yields zero, whatever its
/// category.
pub open spec fn spec_church_recommendation(d: DeedEvent) -> u64 {
    if d.life_harm_flag {
        0
    } else if d.ethics_flags@.len() > 0 {
        0
    } else {
        match d.category {
            Category::Other(_) => 0,
            _ => CHURCH_RECOMMEND_PER_GOOD_DEED,
        }
    }
}

} // verus!

//! The JSON text of verifying keys and proofs, written field by field in a
//! fixed layout with tab indentation.
use crate::codec::{
    encode_key, encode_proof, int_views, G1Texts, G2Texts, KeyJsonView, Proof, ProofJson,
    ProofJsonView, Text, VerifyingKey, VerifyingKeyJson,
};
use crate::field::{decimal, u64_to_decimal, FieldInt};
use vstd::prelude::*;
use vstd::string::*;

verus! {

broadcast use vstd::seq::group_seq_axioms;

/// `["x", "y", "z"]`
pub open spec fn g1_text(t: G1Texts) -> Text {
    "[\""@ + t[0] + "\", \""@ + t[1] + "\", \""@ + t[2] + "\"]"@
}

/// `["a", "b"]`
pub open spec fn pair_text(t: Seq<Text>) -> Text {
    "[\""@ + t[0] + "\", \""@ + t[1] + "\"]"@
}

/// `[["a", "b"], ["c", "d"], ["e", "f"]]`
pub open spec fn g2_text(t: G2Texts) -> Text {
    "["@ + pair_text(t[0]) + ", "@ + pair_text(t[1]) + ", "@ + pair_text(t[2]) + "]"@
}

/// The items, each on a line of its own after two tabs, separated by commas.
pub open spec fn list_text(items: Seq<Text>) -> Text
    decreases items.len(),
{
    if items.len() == 0 {
        Seq::empty()
    } else if items.len() == 1 {
        "\t\t"@ + items[0]
    } else {
        list_text(items.subrange(0, items.len() - 1)) + ",\n"@ + "\t\t"@ + items[items.len() - 1]
    }
}

/// The text of a verifying key in the JSON layout.
pub open spec fn key_text(j: KeyJsonView) -> Text {
    "{\n"@ + "\t\"protocol\":\""@ + j.protocol + "\",\n"@ + "\t\"curve\":\""@ + j.curve
        + "\",\n"@ + "\t\"nPublic\": "@ + decimal(j.n_public) + ",\n"@ + "\t\"vk_alpha_1\": "@
        + g1_text(j.alpha) + ",\n"@ + "\t\"vk_beta_2\": "@ + g2_text(j.beta) + ",\n"@
        + "\t\"vk_gamma_2\": "@ + g2_text(j.gamma) + ",\n"@ + "\t\"vk_delta_2\": "@ + g2_text(
        j.delta,
    ) + ",\n"@ + "\t\"IC\":[\n"@ + list_text(j.ic.map_values(|p: G1Texts| g1_text(p)))
        + "\n\t]\n"@ + "}\n"@
}

/// The text of a proof and its public inputs in the JSON layout.
pub open spec fn proof_text(j: ProofJsonView) -> Text {
    "{\n"@ + "\t\"protocol\":\""@ + j.protocol + "\",\n"@ + "\t\"type\":\""@ + j.proof_type
        + "\",\n"@ + "\t\"curve\":\""@ + j.curve + "\",\n"@ + "\t\"a\": "@ + g1_text(j.a)
        + ",\n"@ + "\t\"b\": "@ + g2_text(j.b) + ",\n"@ + "\t\"c\": "@ + g1_text(j.c) + ",\n"@
        + "\t\"inputs\": [\n"@ + list_text(j.inputs.map_values(|t: Text| "\""@ + t + "\""@))
        + "\n\t]\n"@ + "}\n"@
}

fn write_g1(out: &mut String, t: &[String; 3])
    ensures
        final(out)@ == old(out)@ + g1_text(t@.map_values(|s: String| s@)),
{
    out.append("[\"");
    out.append(t[0].as_str());
    out.append("\", \"");
    out.append(t[1].as_str());
    out.append("\", \"");
    out.append(t[2].as_str());
    out.append("\"]");
    assert(final(out)@ =~= old(out)@ + g1_text(t@.map_values(|s: String| s@)));
}

fn write_pair(out: &mut String, t: &[String; 2])
    ensures
        final(out)@ == old(out)@ + pair_text(t@.map_values(|s: String| s@)),
{
    out.append("[\"");
    out.append(t[0].as_str());
    out.append("\", \"");
    out.append(t[1].as_str());
    out.append("\"]");
    assert(final(out)@ =~= old(out)@ + pair_text(t@.map_values(|s: String| s@)));
}

fn write_g2(out: &mut String, t: &[[String; 2]; 3])
    ensures
        final(out)@ == old(out)@ + g2_text(
            t@.map_values(|p: [String; 2]| p@.map_values(|s: String| s@)),
        ),
{
    let ghost tv = t@.map_values(|p: [String; 2]| p@.map_values(|s: String| s@));
    out.append("[");
    write_pair(out, &t[0]);
    out.append(", ");
    write_pair(out, &t[1]);
    out.append(", ");
    write_pair(out, &t[2]);
    out.append("]");
    assert(tv[0] == t[0]@.map_values(|s: String| s@));
    assert(tv[1] == t[1]@.map_values(|s: String| s@));
    assert(tv[2] == t[2]@.map_values(|s: String| s@));
    assert(final(out)@ =~= old(out)@ + g2_text(tv));
}

impl VerifyingKeyJson {
    /// The JSON text of this layout. Texts are written as they stand: the
    /// layout of a key holds only tags and decimal digits.
    pub fn to_json_text(&self) -> (r: String)
        ensures
            r@ == key_text(self@),
    {
        let ghost j = self@;
        let mut out = String::new();
        out.append("{\n");
        out.append("\t\"protocol\":\"");
        out.append(self.protocol.as_str());
        out.append("\",\n");
        out.append("\t\"curve\":\"");
        out.append(self.curve.as_str());
        out.append("\",\n");
        out.append("\t\"nPublic\": ");
        let n = u64_to_decimal(self.n_public as u64);
        out.append(n.as_str());
        out.append(",\n");
        out.append("\t\"vk_alpha_1\": ");
        write_g1(&mut out, &self.vk_alpha_1);
        out.append(",\n");
        out.append("\t\"vk_beta_2\": ");
        write_g2(&mut out, &self.vk_beta_2);
        out.append(",\n");
        out.append("\t\"vk_gamma_2\": ");
        write_g2(&mut out, &self.vk_gamma_2);
        out.append(",\n");
        out.append("\t\"vk_delta_2\": ");
        write_g2(&mut out, &self.vk_delta_2);
        out.append(",\n");
        out.append("\t\"IC\":[\n");
        let ghost head = out@;
        let ghost items = j.ic.map_values(|p: G1Texts| g1_text(p));
        let mut i: usize = 0;
        while i < self.ic.len()
            invariant
                i <= self.ic@.len(),
                j == self@,
                items == j.ic.map_values(|p: G1Texts| g1_text(p)),
                items.len() == self.ic@.len(),
                out@ == head + list_text(items.subrange(0, i as int)),
            decreases self.ic@.len() - i,
        {
            assert(items[i as int] == g1_text(self.ic@[i as int]@.map_values(|s: String| s@)));
            assert(items.subrange(0, i + 1).subrange(0, i as int) =~= items.subrange(0, i as int));
            if i != 0 {
                out.append(",\n");
            }
            out.append("\t\t");
            write_g1(&mut out, &self.ic[i]);
            i = i + 1;
            assert(out@ =~= head + list_text(items.subrange(0, i as int)));
        }
        assert(items.subrange(0, i as int) =~= items);
        out.append("\n\t]\n");
        out.append("}\n");
        assert(out@ =~= key_text(j));
        out
    }
}

impl ProofJson {
    /// The JSON text of this layout. Texts are written as they stand: the
    /// layout of a proof holds only tags and decimal digits.
    pub fn to_json_text(&self) -> (r: String)
        ensures
            r@ == proof_text(self@),
    {
        let ghost j = self@;
        let mut out = String::new();
        out.append("{\n");
        out.append("\t\"protocol\":\"");
        out.append(self.protocol.as_str());
        out.append("\",\n");
        out.append("\t\"type\":\"");
        out.append(self.proof_type.as_str());
        out.append("\",\n");
        out.append("\t\"curve\":\"");
        out.append(self.curve.as_str());
        out.append("\",\n");
        out.append("\t\"a\": ");
        write_g1(&mut out, &self.a);
        out.append(",\n");
        out.append("\t\"b\": ");
        write_g2(&mut out, &self.b);
        out.append(",\n");
        out.append("\t\"c\": ");
        write_g1(&mut out, &self.c);
        out.append(",\n");
        out.append("\t\"inputs\": [\n");
        let ghost head = out@;
        let ghost items = j.inputs.map_values(|t: Text| "\""@ + t + "\""@);
        let mut i: usize = 0;
        while i < self.inputs.len()
            invariant
                i <= self.inputs@.len(),
                j == self@,
                items == j.inputs.map_values(|t: Text| "\""@ + t + "\""@),
                items.len() == self.inputs@.len(),
                out@ == head + list_text(items.subrange(0, i as int)),
            decreases self.inputs@.len() - i,
        {
            assert(items[i as int] == "\""@ + self.inputs@[i as int]@ + "\""@);
            assert(items.subrange(0, i + 1).subrange(0, i as int) =~= items.subrange(0, i as int));
            if i != 0 {
                out.append(",\n");
            }
            out.append("\t\t");
            out.append("\"");
            out.append(self.inputs[i].as_str());
            out.append("\"");
            i = i + 1;
            assert(out@ =~= head + list_text(items.subrange(0, i as int)));
        }
        assert(items.subrange(0, i as int) =~= items);
        out.append("\n\t]\n");
        out.append("}\n");
        assert(out@ =~= proof_text(j));
        out
    }
}

/// The JSON text of a verifying key.
pub fn verifying_key_to_json(vk: &VerifyingKey) -> (r: String)
    requires
        vk.gamma_abc_g1@.len() >= 1,
    ensures
        r@ == key_text(encode_key(vk@)),
{
    VerifyingKeyJson::from_key(vk).to_json_text()
}

/// The JSON text of a proof and its public inputs.
pub fn proof_to_json(proof: &Proof, public_inputs: &Vec<FieldInt>) -> (r: String)
    ensures
        r@ == proof_text(encode_proof(proof@, int_views(public_inputs@))),
{
    ProofJson::from_proof(proof, public_inputs).to_json_text()
}

} // verus!

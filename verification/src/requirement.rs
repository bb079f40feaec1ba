//! Channel policy requirements: the requirement tree, the rule hashes an
//! ACCEPT-only policy asks users to accept, and its human-readable form.
use vstd::prelude::*;
use vstd::string::StringSliceAdditionalSpecFns;
use crate::text::{push_str, string_views};

verus! {

broadcast use vstd::seq_lib::group_seq_properties;

/// A node of a channel's join requirement tree.
#[derive(Debug)]
pub enum Requirement {
    /// Accept the rules document with this hash.
    Accept { hash: String },
    /// Present a credential of this type (from this issuer, if given).
    Present { credential_type: String, issuer: Option<String> },
    /// Prove something of this type.
    Prove { proof_type: String },
    /// All sub-requirements hold.
    All { requirements: Vec<Requirement> },
    /// Some sub-requirement holds.
    Any { requirements: Vec<Requirement> },
    /// The sub-requirement does not hold.
    Not { requirement: Box<Requirement> },
}

/// The hashes of every ACCEPT node in `r` (descending through ALL, ANY
/// and NOT).
pub open spec fn accept_hashes(r: Requirement) -> Set<Seq<char>>
    decreases r,
{
    match r {
        Requirement::Accept { hash } => set![hash@],
        Requirement::All { requirements } => accept_hashes_list(requirements@),
        Requirement::Any { requirements } => accept_hashes_list(requirements@),
        Requirement::Not { requirement } => accept_hashes(*requirement),
        _ => Set::empty(),
    }
}

/// The ACCEPT hashes of each of `rs`, together.
pub open spec fn accept_hashes_list(rs: Seq<Requirement>) -> Set<Seq<char>>
    decreases rs,
{
    if rs.len() == 0 {
        Set::empty()
    } else {
        accept_hashes_list(rs.drop_last()) + accept_hashes(rs.last())
    }
}

/// Adds the ACCEPT hashes of `req` to `acc`, keeping `acc` free of
/// duplicates.
#[verifier::loop_isolation(false)]
fn collect_accept(req: &Requirement, acc: &mut Vec<String>)
    requires
        string_views(old(acc)@).no_duplicates(),
    ensures
        string_views(final(acc)@).no_duplicates(),
        string_views(final(acc)@).to_set() == string_views(old(acc)@).to_set() + accept_hashes(
            *req,
        ),
    decreases req,
{
    match req {
        Requirement::Accept { hash } => {
            let ghost before = string_views(acc@);
            let n = acc.len();
            let mut i: usize = 0;
            let mut present = false;
            while i < n
                invariant
                    n == acc@.len(),
                    i <= n,
                    before == string_views(acc@),
                    present ==> before.contains(hash@),
                    !present ==> forall|j: int| 0 <= j < i ==> before[j] != hash@,
                decreases n - i,
            {
                if !present && acc[i] == *hash {
                    assert(before[i as int] == acc@[i as int]@);
                    present = true;
                }
                i = i + 1;
            }
            if present {
                assert(before.to_set() + set![hash@] =~= before.to_set());
            } else {
                acc.push(hash.clone());
                assert(string_views(acc@) =~= before.push(hash@));
                assert(string_views(acc@).to_set() =~= before.to_set() + set![hash@]);
            }
        },
        Requirement::All { requirements } | Requirement::Any { requirements } => {
            let n = requirements.len();
            let ghost start = string_views(acc@).to_set();
            let mut i: usize = 0;
            while i < n
                invariant
                    n == requirements@.len(),
                    i <= n,
                    string_views(acc@).no_duplicates(),
                    string_views(acc@).to_set() == start + accept_hashes_list(
                        requirements@.take(i as int),
                    ),
                decreases n - i,
            {
                assert(requirements@.take(i + 1).drop_last() =~= requirements@.take(i as int));
                assert(requirements@.take(i + 1).last() == requirements@[i as int]);
                assert(decreases_to!(requirements@ => requirements@[i as int]));
                collect_accept(&requirements[i], acc);
                assert(start + accept_hashes_list(requirements@.take(i as int)) + accept_hashes(
                    requirements@[i as int],
                ) =~= start + accept_hashes_list(requirements@.take(i + 1)));
                i = i + 1;
            }
            assert(requirements@.take(n as int) =~= requirements@);
        },
        Requirement::Not { requirement } => {
            collect_accept(requirement, acc);
        },
        _ => {
            assert(string_views(acc@).to_set() + Set::<Seq<char>>::empty() =~= string_views(
                acc@,
            ).to_set());
        },
    }
}

/// The ACCEPT hashes of a requirement tree, each once.
pub fn extract_accept_hash(req: &Requirement) -> (r: Vec<String>)
    ensures
        string_views(r@).no_duplicates(),
        string_views(r@).to_set() == accept_hashes(*req),
{
    let mut acc: Vec<String> = Vec::new();
    assert(string_views(acc@) =~= Seq::<Seq<char>>::empty());
    collect_accept(req, &mut acc);
    assert(Seq::<Seq<char>>::empty().to_set() + accept_hashes(*req) =~= accept_hashes(*req));
    acc
}

/// The bytes of an ACCEPT hash's shown prefix: the first 12, or all.
pub open spec fn shown_hash_len(hash: Seq<char>) -> int {
    if vstd::utf8::encode_utf8(hash).len() < 12 {
        vstd::utf8::encode_utf8(hash).len() as int
    } else {
        12
    }
}

/// Every ACCEPT hash in `r` fits the address space and can be cut at
/// its shown prefix without splitting a character.
pub open spec fn describable(r: Requirement) -> bool
    decreases r,
{
    match r {
        Requirement::Accept { hash } => vstd::utf8::encode_utf8(hash@).len() <= usize::MAX
            && vstd::utf8::is_char_boundary(vstd::utf8::encode_utf8(hash@), shown_hash_len(hash@)),
        Requirement::All { requirements } => describable_list(requirements@),
        Requirement::Any { requirements } => describable_list(requirements@),
        Requirement::Not { requirement } => describable(*requirement),
        _ => true,
    }
}

/// Every one of `rs` is describable.
pub open spec fn describable_list(rs: Seq<Requirement>) -> bool
    decreases rs,
{
    if rs.len() == 0 {
        true
    } else {
        describable_list(rs.drop_last()) && describable(rs.last())
    }
}

/// `ds` joined with `", "` between consecutive items.
pub open spec fn comma_join(ds: Seq<Seq<char>>) -> Seq<char>
    decreases ds.len(),
{
    if ds.len() == 0 {
        Seq::empty()
    } else if ds.len() == 1 {
        ds[0]
    } else {
        comma_join(ds.drop_last()) + ", "@ + ds.last()
    }
}

/// The human-readable form of a requirement tree.
pub open spec fn description(r: Requirement) -> Seq<char>
    decreases r,
{
    match r {
        Requirement::Accept { hash } => "ACCEPT("@ + vstd::utf8::decode_utf8(
            vstd::utf8::encode_utf8(hash@).take(shown_hash_len(hash@)),
        ) + "...)"@,
        Requirement::Present { credential_type, issuer } => match issuer {
            Some(iss) => "PRESENT("@ + credential_type@ + ", issuer="@ + iss@ + ")"@,
            None => "PRESENT("@ + credential_type@ + ")"@,
        },
        Requirement::Prove { proof_type } => "PROVE("@ + proof_type@ + ")"@,
        Requirement::All { requirements } => "ALL("@ + comma_join(descriptions(requirements@))
            + ")"@,
        Requirement::Any { requirements } => "ANY("@ + comma_join(descriptions(requirements@))
            + ")"@,
        Requirement::Not { requirement } => "NOT("@ + description(*requirement) + ")"@,
    }
}

/// The descriptions of each of `rs`.
pub open spec fn descriptions(rs: Seq<Requirement>) -> Seq<Seq<char>>
    decreases rs,
{
    if rs.len() == 0 {
        Seq::empty()
    } else {
        descriptions(rs.drop_last()).push(description(rs.last()))
    }
}

/// The list form of a requirement list: `a, b, c`.
fn describe_list(rs: &Vec<Requirement>) -> (r: String)
    requires
        describable_list(rs@),
    ensures
        r@ == comma_join(descriptions(rs@)),
    decreases rs@,
{
    let n = rs.len();
    let mut s = String::new();
    let mut i: usize = 0;
    while i < n
        invariant
            n == rs@.len(),
            i <= n,
            describable_list(rs@),
            s@ == comma_join(descriptions(rs@.take(i as int))),
        decreases n - i,
    {
        proof {
            lemma_describable_prefix(rs@, i as int + 1);
            assert(rs@.take(i + 1).drop_last() =~= rs@.take(i as int));
            assert(rs@.take(i + 1).last() == rs@[i as int]);
            assert(descriptions(rs@.take(i + 1)).len() == i + 1) by {
                lemma_descriptions_len(rs@.take(i + 1));
            }
            assert(descriptions(rs@.take(i + 1)).drop_last() =~= descriptions(rs@.take(i as int)));
        }
        assert(decreases_to!(rs@ => rs@[i as int]));
        let d = describe_requirement(&rs[i]);
        if i > 0 {
            push_str(&mut s, ", ");
        }
        push_str(&mut s, d.as_str());
        i = i + 1;
    }
    assert(rs@.take(n as int) =~= rs@);
    s
}

proof fn lemma_descriptions_len(rs: Seq<Requirement>)
    ensures
        descriptions(rs).len() == rs.len(),
    decreases rs.len(),
{
    if rs.len() > 0 {
        lemma_descriptions_len(rs.drop_last());
    }
}

proof fn lemma_describable_prefix(rs: Seq<Requirement>, k: int)
    requires
        describable_list(rs),
        0 < k <= rs.len(),
    ensures
        describable(rs[k - 1]),
    decreases rs.len(),
{
    if k < rs.len() {
        lemma_describable_prefix(rs.drop_last(), k);
    }
}

/// Human-readable description of a requirement.
pub fn describe_requirement(req: &Requirement) -> (r: String)
    requires
        describable(*req),
    ensures
        r@ == description(*req),
    decreases req,
{
    let mut s = String::new();
    match req {
        Requirement::Accept { hash } => {
            let hs = hash.as_str();
            assert(hs@ == hash@);
            let n = hs.len();
            let k = if n < 12 { n } else { 12 };
            assert(k == shown_hash_len(hash@));
            let (head, _) = hs.split_at(k);
            proof {
                vstd::utf8::encode_utf8_decode_utf8(head@);
            }
            push_str(&mut s, "ACCEPT(");
            push_str(&mut s, head);
            push_str(&mut s, "...)");
        },
        Requirement::Present { credential_type, issuer } => match issuer {
            Some(iss) => {
                push_str(&mut s, "PRESENT(");
                push_str(&mut s, credential_type.as_str());
                push_str(&mut s, ", issuer=");
                push_str(&mut s, iss.as_str());
                push_str(&mut s, ")");
            },
            None => {
                push_str(&mut s, "PRESENT(");
                push_str(&mut s, credential_type.as_str());
                push_str(&mut s, ")");
            },
        },
        Requirement::Prove { proof_type } => {
            push_str(&mut s, "PROVE(");
            push_str(&mut s, proof_type.as_str());
            push_str(&mut s, ")");
        },
        Requirement::All { requirements } => {
            let inner = describe_list(requirements);
            push_str(&mut s, "ALL(");
            push_str(&mut s, inner.as_str());
            push_str(&mut s, ")");
        },
        Requirement::Any { requirements } => {
            let inner = describe_list(requirements);
            push_str(&mut s, "ANY(");
            push_str(&mut s, inner.as_str());
            push_str(&mut s, ")");
        },
        Requirement::Not { requirement } => {
            let inner = describe_requirement(requirement);
            push_str(&mut s, "NOT(");
            push_str(&mut s, inner.as_str());
            push_str(&mut s, ")");
        },
    }
    s
}

} // verus!

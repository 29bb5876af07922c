//! The deterministic address deriver.
//!
//! Every record lives at an address computed from a fixed ASCII domain tag and
//! the ordered identities that the record is about. The same inputs always
//! derive the same address, distinct inputs always derive distinct addresses,
//! and every derivation also yields a disambiguating check byte (the "bump")
//! that creation stores and lookups must reproduce.

use vstd::prelude::*;

verus! {

/// The inputs an address is derived from: a record kind together with the
/// identities that single the record out.
#[derive(Clone, Copy, Debug)]
pub enum RecordKey {
    /// The program configuration singleton.
    Config,
    /// The issuer registry singleton.
    IssuerRegistry,
    /// The per-issuer identity record of the given authority.
    Issuer { authority: [u8; 32] },
    /// The credential record binding a holder to an issuing authority.
    Credential { holder: [u8; 32], issuer: [u8; 32] },
}

/// The mathematical value of a `RecordKey`: the same shape over byte
/// sequences.
pub enum RecordKeyView {
    Config,
    IssuerRegistry,
    Issuer { authority: Seq<u8> },
    Credential { holder: Seq<u8>, issuer: Seq<u8> },
}

impl View for RecordKey {
    type V = RecordKeyView;

    open spec fn view(&self) -> RecordKeyView {
        match *self {
            RecordKey::Config => RecordKeyView::Config,
            RecordKey::IssuerRegistry => RecordKeyView::IssuerRegistry,
            RecordKey::Issuer { authority } => RecordKeyView::Issuer { authority: authority@ },
            RecordKey::Credential { holder, issuer } => RecordKeyView::Credential {
                holder: holder@,
                issuer: issuer@,
            },
        }
    }
}

impl RecordKeyView {
    /// Every identity a key carries is exactly 32 bytes wide.
    pub open spec fn wf(self) -> bool {
        match self {
            RecordKeyView::Config => true,
            RecordKeyView::IssuerRegistry => true,
            RecordKeyView::Issuer { authority } => authority.len() == 32,
            RecordKeyView::Credential { holder, issuer } => holder.len() == 32
                && issuer.len() == 32,
        }
    }
}

/// The ASCII domain tag of the configuration singleton, "config".
pub open spec fn tag_config() -> Seq<u8> {
    seq![99, 111, 110, 102, 105, 103]
}

/// The ASCII domain tag of the registry singleton, "issuer_registry".
pub open spec fn tag_issuer_registry() -> Seq<u8> {
    seq![
        105, 115, 115, 117, 101, 114, 95, 114, 101, 103, 105, 115, 116, 114,
        121,
    ]
}

/// The ASCII domain tag of issuer identity records, "issuer".
pub open spec fn tag_issuer() -> Seq<u8> {
    seq![105, 115, 115, 117, 101, 114]
}

/// The ASCII domain tag of credential records, "credential".
pub open spec fn tag_credential() -> Seq<u8> {
    seq![99, 114, 101, 100, 101, 110, 116, 105, 97, 108]
}

/// The derived address: the key's domain tag followed by its identities, in
/// order and without padding.
pub open spec fn address_of(k: RecordKeyView) -> Seq<u8> {
    match k {
        RecordKeyView::Config => tag_config(),
        RecordKeyView::IssuerRegistry => tag_issuer_registry(),
        RecordKeyView::Issuer { authority } => tag_issuer() + authority,
        RecordKeyView::Credential { holder, issuer } => tag_credential() + holder + issuer,
    }
}

/// The fold that defines the bump: the exclusive or of all address bytes.
pub open spec fn xor_fold(s: Seq<u8>) -> u8
    decreases s.len(),
{
    if s.len() == 0 {
        0u8
    } else {
        xor_fold(s.drop_last()) ^ s.last()
    }
}

/// The disambiguating check byte that goes with a derived address.
pub open spec fn bump_of(k: RecordKeyView) -> u8 {
    xor_fold(address_of(k))
}

/// The deriver is injective: well-formed keys that derive the same address
/// are the same key, so no two records can ever collide at one address.
pub proof fn lemma_address_injective(k1: RecordKeyView, k2: RecordKeyView)
    requires
        k1.wf(),
        k2.wf(),
        address_of(k1) == address_of(k2),
    ensures
        k1 == k2,
{
    let a1 = address_of(k1);
    let a2 = address_of(k2);
    assert(a1.len() == a2.len());
    assert(match k1 {
        RecordKeyView::Config => a1.len() == 6,
        RecordKeyView::IssuerRegistry => a1.len() == 15,
        RecordKeyView::Issuer { .. } => a1.len() == 38,
        RecordKeyView::Credential { .. } => a1.len() == 74,
    });
    assert(match k2 {
        RecordKeyView::Config => a2.len() == 6,
        RecordKeyView::IssuerRegistry => a2.len() == 15,
        RecordKeyView::Issuer { .. } => a2.len() == 38,
        RecordKeyView::Credential { .. } => a2.len() == 74,
    });
    match (k1, k2) {
        (
            RecordKeyView::Issuer { authority: x },
            RecordKeyView::Issuer { authority: y },
        ) => {
            assert(x =~= y) by {
                assert(forall|i: int| 0 <= i < 32 ==> x[i] == a1[6 + i] && y[i] == a2[6 + i]);
            }
        },
        (
            RecordKeyView::Credential { holder: h1, issuer: i1 },
            RecordKeyView::Credential { holder: h2, issuer: i2 },
        ) => {
            assert(h1 =~= h2) by {
                assert(forall|i: int|
                    0 <= i < 32 ==> h1[i] == a1[10 + i] && h2[i] == a2[10 + i]);
            }
            assert(i1 =~= i2) by {
                assert(forall|i: int|
                    0 <= i < 32 ==> i1[i] == a1[42 + i] && i2[i] == a2[42 + i]);
            }
        },
        _ => {},
    }
}

/// Appends a fixed-width byte array to the address being built.
fn push_array<const N: usize>(out: &mut Vec<u8>, bytes: &[u8; N])
    ensures
        final(out)@ == old(out)@ + bytes@,
{
    let mut i: usize = 0;
    while i < N
        invariant
            i <= N,
            out@ == old(out)@ + bytes@.subrange(0, i as int),
        decreases N - i,
    {
        out.push(bytes[i]);
        assert(bytes@.subrange(0, i + 1 as int) =~= bytes@.subrange(0, i as int).push(
            bytes@[i as int],
        ));
        i = i + 1;
    }
    assert(bytes@.subrange(0, N as int) =~= bytes@);
}

/// Folds the address bytes into the bump.
fn fold_bump(address: &Vec<u8>) -> (b: u8)
    ensures
        b == xor_fold(address@),
{
    let mut acc: u8 = 0;
    let mut i: usize = 0;
    while i < address.len()
        invariant
            i <= address@.len(),
            acc == xor_fold(address@.subrange(0, i as int)),
        decreases address@.len() - i,
    {
        assert(address@.subrange(0, i + 1 as int).drop_last() =~= address@.subrange(
            0,
            i as int,
        ));
        assert(address@.subrange(0, i + 1 as int).last() == address@[i as int]);
        acc = acc ^ address[i];
        i = i + 1;
    }
    assert(address@.subrange(0, address@.len() as int) =~= address@);
    acc
}

/// Derives the stable address and bump of a record key: the same inputs
/// always yield the same pair, and distinct inputs yield distinct addresses.
pub fn derive_address(key: &RecordKey) -> (r: (Vec<u8>, u8))
    ensures
        r.0@ == address_of(key@),
        r.1 == bump_of(key@),
{
    let mut out: Vec<u8> = Vec::new();
    match key {
        RecordKey::Config => {
            let tag: [u8; 6] = [99, 111, 110, 102, 105, 103];
            push_array(&mut out, &tag);
            assert(out@ =~= tag_config());
        },
        RecordKey::IssuerRegistry => {
            let tag: [u8; 15] = [
                105, 115, 115, 117, 101, 114, 95, 114, 101, 103, 105, 115, 116,
                114, 121,
            ];
            push_array(&mut out, &tag);
            assert(out@ =~= tag_issuer_registry());
        },
        RecordKey::Issuer { authority } => {
            let tag: [u8; 6] = [105, 115, 115, 117, 101, 114];
            push_array(&mut out, &tag);
            assert(out@ =~= tag_issuer());
            push_array(&mut out, authority);
        },
        RecordKey::Credential { holder, issuer } => {
            let tag: [u8; 10] = [99, 114, 101, 100, 101, 110, 116, 105, 97, 108];
            push_array(&mut out, &tag);
            assert(out@ =~= tag_credential());
            push_array(&mut out, holder);
            push_array(&mut out, issuer);
        },
    }
    let bump = fold_bump(&out);
    (out, bump)
}

} // verus!

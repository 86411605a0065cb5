//! Certificate decoding: PEM bundles, raw DER, and the trust-anchor file.
use vstd::prelude::*;

use crate::text::concat3;

verus! {

/// The bytes of each of a list of byte strings.
pub open spec fn byte_views(v: Seq<Vec<u8>>) -> Seq<Seq<u8>> {
    Seq::new(v.len(), |i: int| v[i]@)
}

/// The certificate blocks of a PEM text, in order: the decoded bytes of each, `None`
/// for a block that does not decode.
pub uninterp spec fn pem_certificates(bytes: Seq<u8>) -> Seq<Option<Seq<u8>>>;

/// The bytes of an optional byte string.
pub open spec fn opt_bytes(o: Option<Vec<u8>>) -> Option<Seq<u8>> {
    match o {
        Some(v) => Some(v@),
        None => None,
    }
}

/// `rustls_pemfile::certs` over a byte slice: one item for each certificate block
/// or failure, in the order they stand. The PEM grammar is not spelled out: only
/// that the items depend on the bytes alone.
#[verifier::external_body]
fn pem_items(bytes: &[u8]) -> (r: Vec<Option<Vec<u8>>>)
    ensures
        Seq::new(r@.len(), |i: int| opt_bytes(r@[i])) == pem_certificates(bytes@),
{
    let mut reader = std::io::BufReader::new(bytes);
    rustls_pemfile::certs(&mut reader).map(|c| c.ok().map(|der| der.to_vec())).collect()
}

/// The blocks that decoded, in order.
pub open spec fn decoded(items: Seq<Option<Seq<u8>>>) -> Seq<Seq<u8>>
    decreases items.len(),
{
    if items.len() == 0 {
        Seq::empty()
    } else if items.last() is Some {
        decoded(items.drop_last()).push(items.last()->0)
    } else {
        decoded(items.drop_last())
    }
}

/// The certificates of a blob with the given PEM blocks: the decoded blocks, or the
/// blob itself as one raw certificate when there is none; nothing for no bytes.
pub open spec fn chain_of(bytes: Seq<u8>, items: Seq<Option<Seq<u8>>>) -> Seq<Seq<u8>> {
    let certs = decoded(items);
    if certs.len() > 0 {
        certs
    } else if bytes.len() == 0 {
        Seq::empty()
    } else {
        seq![bytes]
    }
}

/// The certificates of a blob.
pub open spec fn certificates(bytes: Seq<u8>) -> Seq<Seq<u8>> {
    chain_of(bytes, pem_certificates(bytes))
}

/// The certificates of a blob whose PEM blocks are `items`.
pub fn chain_from_items(bytes: &[u8], items: Vec<Option<Vec<u8>>>) -> (r: Vec<Vec<u8>>)
    ensures
        byte_views(r@) == chain_of(
            bytes@,
            Seq::new(items@.len(), |i: int| opt_bytes(items@[i])),
        ),
{
    let ghost all = Seq::new(items@.len(), |i: int| opt_bytes(items@[i]));
    let mut certs: Vec<Vec<u8>> = Vec::new();
    let mut i: usize = 0;
    assert(byte_views(certs@) =~= decoded(all.subrange(0, 0)));
    while i < items.len()
        invariant
            i <= items@.len(),
            all == Seq::new(items@.len(), |k: int| opt_bytes(items@[k])),
            byte_views(certs@) == decoded(all.subrange(0, i as int)),
        decreases items@.len() - i,
    {
        let ghost upto = all.subrange(0, i + 1);
        assert(upto.drop_last() =~= all.subrange(0, i as int));
        assert(upto.last() == opt_bytes(items@[i as int]));
        if let Some(der) = &items[i] {
            let ghost before = certs@;
            certs.push(vstd::slice::slice_to_vec(der.as_slice()));
            assert(byte_views(certs@) =~= byte_views(before).push(der@));
        }
        i += 1;
    }
    assert(all.subrange(0, i as int) =~= all);
    assert(byte_views(certs@).len() == certs@.len());
    if certs.len() > 0 {
        return certs;
    }
    let mut out: Vec<Vec<u8>> = Vec::new();
    if bytes.len() > 0 {
        out.push(vstd::slice::slice_to_vec(bytes));
    }
    assert(byte_views(out@) =~= chain_of(bytes@, all));
    out
}

/// Parse a certificate blob: a PEM bundle, or one raw certificate when it holds no
/// PEM. Order is preserved: in a fetched chain the end-entity certificate is first.
pub fn parse_cert_chain(bytes: &[u8]) -> (r: Vec<Vec<u8>>)
    ensures
        byte_views(r@) == certificates(bytes@),
{
    let items = pem_items(bytes);
    chain_from_items(bytes, items)
}

/// A blob of at least one byte always gives at least one certificate.
pub proof fn nonempty_blobs_give_certificates(bytes: Seq<u8>)
    ensures
        certificates(bytes).len() == 0 ==> bytes.len() == 0,
{
}

/// Failure loading the trust-anchor file.
#[derive(Debug)]
pub enum TrustAnchorLoadError {
    Io { path: String, source: String },
    Empty { path: String },
}

impl TrustAnchorLoadError {
    pub open spec fn message(self) -> Seq<char> {
        match self {
            TrustAnchorLoadError::Io { path, source } => "trust anchor file "@ + path@
                + " could not be read: "@ + source@,
            TrustAnchorLoadError::Empty { path } => "trust anchor file "@ + path@
                + " contained no PEM certificates"@,
        }
    }

    /// The message, as operators see it.
    pub fn to_string(&self) -> (r: String)
        ensures
            r@ == self.message(),
    {
        match self {
            TrustAnchorLoadError::Io { path, source } => {
                let mut r = concat3("trust anchor file ", path.as_str(), " could not be read: ");
                r.push_str(source.as_str());
                r
            },
            TrustAnchorLoadError::Empty { path } => concat3(
                "trust anchor file ",
                path.as_str(),
                " contained no PEM certificates",
            ),
        }
    }
}

/// The trust anchors in what reading the file at `path` gave. Fails when the file
/// could not be read or holds no certificate.
pub fn load_trust_anchors(path: &str, contents: Result<&[u8], String>) -> (r: Result<
    Vec<Vec<u8>>,
    TrustAnchorLoadError,
>)
    ensures
        match contents {
            Err(e) => r is Err && r->Err_0 is Io && r->Err_0->Io_path@ == path@
                && r->Err_0->source == e,
            Ok(bytes) => if certificates(bytes@).len() == 0 {
                r is Err && r->Err_0 is Empty && r->Err_0->Empty_path@ == path@
            } else {
                r is Ok && byte_views(r->Ok_0@) == certificates(bytes@)
            },
        },
{
    match contents {
        Err(source) => Err(TrustAnchorLoadError::Io { path: path.to_owned(), source }),
        Ok(bytes) => {
            let certs = parse_cert_chain(bytes);
            assert(byte_views(certs@).len() == certs@.len());
            if certs.len() == 0 {
                Err(TrustAnchorLoadError::Empty { path: path.to_owned() })
            } else {
                Ok(certs)
            }
        },
    }
}

/// Blocks that all decode are the chain, in their order; bytes without a block that
/// decodes are one certificate as they are; and no bytes are none.
pub proof fn the_blocks_are_the_chain(
    bytes: &[u8],
    items: Vec<Option<Vec<u8>>>,
    r: Vec<Vec<u8>>,
)
    requires
        call_ensures(chain_from_items, (bytes, items), r),
    ensures
        items@.len() > 0 && (forall|i: int| 0 <= i < items@.len() ==> (#[trigger] items@[i]) is Some)
            ==> r@.len() == items@.len() && forall|i: int|
            0 <= i < items@.len() ==> (#[trigger] r@[i])@ == items@[i]->0@,
        (forall|i: int| 0 <= i < items@.len() ==> (#[trigger] items@[i]) is None) && bytes@.len() > 0
            ==> r@.len() == 1 && r@[0]@ == bytes@,
        (forall|i: int| 0 <= i < items@.len() ==> (#[trigger] items@[i]) is None) && bytes@.len()
            == 0 ==> r@.len() == 0,
{
    let all = Seq::new(items@.len(), |i: int| opt_bytes(items@[i]));
    assert(byte_views(r@).len() == r@.len());
    if items@.len() > 0 && (forall|i: int|
        0 <= i < items@.len() ==> (#[trigger] items@[i]) is Some) {
        assert forall|i: int| 0 <= i < all.len() implies (#[trigger] all[i]) is Some by {
            assert(items@[i] is Some);
        }
        decoded_keeps_all(all);
        assert forall|i: int| 0 <= i < items@.len() implies (#[trigger] r@[i])@ == items@[i]->0@ by {
            assert(byte_views(r@)[i] == r@[i]@);
            assert(all[i] == opt_bytes(items@[i]));
        }
    }
    if forall|i: int| 0 <= i < items@.len() ==> (#[trigger] items@[i]) is None {
        assert forall|i: int| 0 <= i < all.len() implies (#[trigger] all[i]) is None by {
            assert(items@[i] is None);
        }
        decoded_drops_all(all);
        if bytes@.len() > 0 {
            assert(byte_views(r@)[0] == r@[0]@);
        }
    }
}

proof fn decoded_keeps_all(items: Seq<Option<Seq<u8>>>)
    requires
        forall|i: int| 0 <= i < items.len() ==> (#[trigger] items[i]) is Some,
    ensures
        decoded(items).len() == items.len(),
        forall|i: int| 0 <= i < items.len() ==> (#[trigger] decoded(items)[i]) == items[i]->0,
    decreases items.len(),
{
    if items.len() > 0 {
        let front = items.drop_last();
        assert forall|i: int| 0 <= i < front.len() implies (#[trigger] front[i]) is Some by {
            assert(front[i] == items[i]);
        }
        decoded_keeps_all(front);
        assert(items[items.len() - 1] is Some);
    }
}

proof fn decoded_drops_all(items: Seq<Option<Seq<u8>>>)
    requires
        forall|i: int| 0 <= i < items.len() ==> (#[trigger] items[i]) is None,
    ensures
        decoded(items).len() == 0,
    decreases items.len(),
{
    if items.len() > 0 {
        let front = items.drop_last();
        assert forall|i: int| 0 <= i < front.len() implies (#[trigger] front[i]) is None by {
            assert(front[i] == items[i]);
        }
        decoded_drops_all(front);
        assert(items[items.len() - 1] is None);
    }
}

/// A block that does not decode changes nothing for those around it.
pub proof fn a_bad_block_is_skipped(
    bytes: &[u8],
    front: Seq<Option<Vec<u8>>>,
    back: Seq<Option<Vec<u8>>>,
    with: Vec<Option<Vec<u8>>>,
    without: Vec<Option<Vec<u8>>>,
    r: Vec<Vec<u8>>,
    s: Vec<Vec<u8>>,
)
    requires
        with@ == front.push(None) + back,
        without@ == front + back,
        call_ensures(chain_from_items, (bytes, with), r),
        call_ensures(chain_from_items, (bytes, without), s),
    ensures
        r@.len() == s@.len(),
        forall|i: int| 0 <= i < r@.len() ==> (#[trigger] r@[i])@ == s@[i]@,
{
    let f = Seq::new(front.len(), |i: int| opt_bytes(front[i]));
    let b = Seq::new(back.len(), |i: int| opt_bytes(back[i]));
    let x = Seq::new(with@.len(), |i: int| opt_bytes(with@[i]));
    let y = Seq::new(without@.len(), |i: int| opt_bytes(without@[i]));
    assert(x =~= f.push(None) + b);
    assert(y =~= f + b);
    decoded_concat(f.push(None), b);
    decoded_concat(f, b);
    assert(f.push(None).drop_last() =~= f);
    assert(byte_views(r@).len() == r@.len() && byte_views(s@).len() == s@.len());
    assert forall|i: int| 0 <= i < r@.len() implies (#[trigger] r@[i])@ == s@[i]@ by {
        assert(byte_views(r@)[i] == byte_views(s@)[i]);
    }
}

proof fn decoded_concat(a: Seq<Option<Seq<u8>>>, b: Seq<Option<Seq<u8>>>)
    ensures
        decoded(a + b) == decoded(a) + decoded(b),
    decreases b.len(),
{
    if b.len() == 0 {
        assert(a + b =~= a);
        assert(decoded(a) + decoded(b) =~= decoded(a));
    } else {
        decoded_concat(a, b.drop_last());
        assert((a + b).drop_last() =~= a + b.drop_last());
        assert((a + b).last() == b.last());
        assert(decoded(a) + decoded(b) =~= decoded(a + b));
    }
}

/// The trust anchors are the certificates of the file; a file that cannot be read, and
/// one without a certificate, is an error that names the file.
pub proof fn a_trust_file_must_hold_certificates(
    path: &str,
    contents: Result<&[u8], String>,
    r: Result<Vec<Vec<u8>>, TrustAnchorLoadError>,
    bytes: &[u8],
    chain: Vec<Vec<u8>>,
)
    requires
        call_ensures(load_trust_anchors, (path, contents), r),
        call_ensures(parse_cert_chain, (bytes,), chain),
    ensures
        contents is Err ==> (r matches Err(TrustAnchorLoadError::Io { path: p, .. }) && p@
            == path@),
        contents == Ok::<&[u8], String>(bytes) ==> {
            &&& r is Ok <==> chain@.len() > 0
            &&& r matches Ok(v) ==> byte_views(v@) == byte_views(chain@)
            &&& r is Err ==> (r matches Err(TrustAnchorLoadError::Empty { path: p }) && p@ == path@)
        },
{
    assert(byte_views(chain@).len() == chain@.len());
}

} // verus!

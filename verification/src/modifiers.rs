//! Agreeing on the modifiers (buffer layouts) that a plane and a renderer share.

use crate::drmx::property;
use crate::drmx::property::{find_named, NamedProperty};
use crate::drmx::Format;
use crate::format_modifier;
use crate::format_modifier::{drm_format_modifier_blob, DrmFormatParseError};
use crate::scanout::{Backend, ScanoutError};
use std::collections::HashSet;
use vstd::arithmetic::power2::pow2;
use vstd::prelude::*;

verus! {

broadcast use vstd::std_specs::hash::group_hash_axioms;

/// The modifier of buffers whose rows lie one after another.
pub const LINEAR: u64 = 0;

/// The modifier that says that no modifier is known.
pub const INVALID: u64 = 0x00ff_ffff_ffff_ffff;

/// Calls the conversion of `DrmModifier::Linear` to `u64` in the `drm-fourcc`
/// crate, which `drm` passes on, and claims that it gives [`LINEAR`].
#[verifier::external_body]
fn linear_modifier() -> (r: u64)
    ensures
        r == LINEAR,
{
    u64::from(drm::buffer::DrmModifier::Linear)
}

/// Calls the conversion of `DrmModifier::Invalid` to `u64` in the `drm-fourcc`
/// crate, which `drm` passes on, and claims that it gives [`INVALID`].
#[verifier::external_body]
fn invalid_modifier() -> (r: u64)
    ensures
        r == INVALID,
{
    u64::from(drm::buffer::DrmModifier::Invalid)
}

/// The blob that tells which formats a plane supports, among the properties
/// that were read of the plane.
pub fn in_formats_blob<B: Backend>(
    properties: Result<Vec<NamedProperty>, std::io::Error>,
) -> (r: Result<u64, ScanoutError<B>>)
    ensures
        match properties {
            Err(e) => r == Err::<u64, ScanoutError<B>>(ScanoutError::Io(e)),
            Ok(properties) => match property::first_named(properties@, "IN_FORMATS"@) {
                Some(p) => r == Ok::<u64, ScanoutError<B>>(p.value),
                None => r == Err::<u64, ScanoutError<B>>(ScanoutError::CannotGetDrmFormats),
            },
        },
{
    match properties {
        Err(e) => Err(ScanoutError::Io(e)),
        Ok(properties) => match find_named(&properties, "IN_FORMATS") {
            Some(p) => Ok(p.value),
            None => Err(ScanoutError::CannotGetDrmFormats),
        },
    }
}

/// The modifiers that a plane supports for a format: all that the blob names,
/// but for [`INVALID`].
pub open spec fn plane_modifiers(
    contents: format_modifier::BlobContents,
    fourcc: u32,
) -> Set<u64> {
    format_modifier::modifiers_of(contents, fourcc).to_set().remove(INVALID)
}

pub fn supported_modifiers(blob: &drm_format_modifier_blob, fourcc: u32) -> (r: HashSet<u64>)
    ensures
        r@ == plane_modifiers(blob@, fourcc),
{
    let modifiers = blob.modifiers_for(fourcc);
    let invalid: u64 = invalid_modifier();
    let mut supported: HashSet<u64> = HashSet::new();
    let mut i: usize = 0;
    assert(modifiers@.take(0).to_set().remove(INVALID) =~= Set::empty());
    while i < modifiers.len()
        invariant
            i <= modifiers@.len(),
            invalid == INVALID,
            supported@ == modifiers@.take(i as int).to_set().remove(INVALID),
        decreases modifiers@.len() - i,
    {
        let m: u64 = modifiers[i];
        if m != invalid {
            supported.insert(m);
        }
        proof {
            lemma_to_set_take(modifiers@, i as int);
            assert(supported@ =~= modifiers@.take(i + 1).to_set().remove(INVALID));
        }
        i = i + 1;
    }
    assert(modifiers@.take(i as int) =~= modifiers@);
    supported
}

proof fn lemma_to_set_take(s: Seq<u64>, i: int)
    requires
        0 <= i < s.len(),
    ensures
        s.take(i + 1).to_set() == s.take(i).to_set().insert(s[i]),
{
    let longer = s.take(i + 1);
    let shorter = s.take(i);
    assert(longer =~= shorter.push(s[i]));
    assert forall|x: u64| longer.to_set().contains(x) == shorter.to_set().insert(s[i]).contains(
        x,
    ) by {
        if shorter.contains(x) {
            let k = shorter.index_of(x);
            assert(longer[k] == x);
        }
        if x == s[i] {
            assert(longer[i] == x);
        }
        if longer.contains(x) && x != s[i] {
            let k = longer.index_of(x);
            assert(shorter[k] == x);
        }
    }
    assert(longer.to_set() =~= shorter.to_set().insert(s[i]));
}

/// What [`drm_modifiers`] returns for a blob that was read: what the plane
/// supports, or the first thing that is wrong with the blob.
pub open spec fn supports<B: Backend>(
    read: Result<format_modifier::BlobContents, DrmFormatParseError>,
    fourcc: u32,
    outcome: Result<HashSet<u64>, ScanoutError<B>>,
) -> bool {
    match read {
        Ok(contents) => outcome matches Ok(modifiers) && modifiers@ == plane_modifiers(
            contents,
            fourcc,
        ),
        Err(e) => outcome == Err::<HashSet<u64>, ScanoutError<B>>(ScanoutError::DrmFormat(e)),
    }
}

/// The modifiers that a plane supports for a format. `read` is what was read of
/// the blob that the plane's properties name, where there is one.
pub fn modifiers_read<B: Backend>(
    read: Option<Result<drm_format_modifier_blob, DrmFormatParseError>>,
    fourcc: u32,
) -> (r: Result<HashSet<u64>, ScanoutError<B>>)
    ensures
        match read {
            None => r == Err::<HashSet<u64>, ScanoutError<B>>(ScanoutError::CannotGetDrmFormats),
            Some(read) => supports(format_modifier::viewed_blob(read), fourcc, r),
        },
{
    match read {
        None => Err(ScanoutError::CannotGetDrmFormats),
        Some(Ok(blob)) => Ok(supported_modifiers(&blob, fourcc)),
        Some(Err(e)) => Err(ScanoutError::DrmFormat(e)),
    }
}

/// The modifiers that a plane supports for a format. `in_formats` is the
/// content of the blob that the plane's properties name, where there is one.
pub fn drm_modifiers<B: Backend>(in_formats: Option<Vec<u8>>, fourcc: u32) -> (r: Result<
    HashSet<u64>,
    ScanoutError<B>,
>)
    ensures
        match in_formats {
            None => r == Err::<HashSet<u64>, ScanoutError<B>>(ScanoutError::CannotGetDrmFormats),
            Some(bytes) => supports(
                format_modifier::parsed(format_modifier::native(), bytes@),
                fourcc,
                r,
            ),
        },
{
    let read = match in_formats {
        None => None,
        Some(bytes) => Some(drm_format_modifier_blob::read(bytes.as_slice())),
    };
    modifiers_read(read, fourcc)
}

/// The modifiers that buffers may have: those that both sides know, each once,
/// or [`LINEAR`] alone where they have none in common.
pub open spec fn usable(offered: Set<u64>, supported: Set<u64>, modifiers: Seq<u64>) -> bool {
    let common = offered.intersect(supported);
    if common == Set::<u64>::empty() {
        modifiers == seq![LINEAR]
    } else {
        modifiers.no_duplicates() && modifiers.to_set() == common
    }
}

spec fn offered_before(offered: Seq<&u64>, count: int, m: u64) -> bool {
    exists|j: int| 0 <= j < count && *#[trigger] offered[j] == m
}

pub fn usable_modifiers(offered: &HashSet<u64>, supported: &HashSet<u64>) -> (r: Vec<u64>)
    ensures
        usable(offered@, supported@, r@),
{
    let mut common: Vec<u64> = Vec::new();
    let ghost offers = vstd::std_specs::iter::IteratorSpec::remaining(&offered.iter());
    for m in iter: offered.iter()
        invariant
            iter.seq() == offers,
            offers.no_duplicates(),
            offers.unref().to_set() == offered@,
            common@.no_duplicates(),
            forall|k: int|
                0 <= k < common@.len() ==> supported@.contains(#[trigger] common@[k])
                    && offered_before(offers, iter.index() as int, common@[k]),
            forall|j: int|
                0 <= j < iter.index() && supported@.contains(*#[trigger] offers[j])
                    ==> common@.contains(*offers[j]),
    {
        let ghost before = common@;
        if supported.contains(m) {
            assert(!before.contains(*m));
            common.push(*m);
        }
        proof {
            let seen = iter.index() as int;
            assert forall|k: int| 0 <= k < common@.len() implies offered_before(
                offers,
                seen + 1,
                #[trigger] common@[k],
            ) by {
                if k == before.len() {
                    assert(*offers[seen] == common@[k]);
                } else {
                    assert(offered_before(offers, seen, before[k]));
                }
            }
            assert forall|j: int|
                0 <= j < seen + 1 && supported@.contains(
                    *#[trigger] offers[j],
                ) implies common@.contains(*offers[j]) by {
                if j == seen {
                    assert(common@[before.len() as int] == *m);
                } else {
                    let k = before.index_of(*offers[j]);
                    assert(common@[k] == *offers[j]);
                }
            }
        }
    }
    proof {
        let shared = offered@.intersect(supported@);
        assert forall|x: u64| common@.to_set().contains(x) == shared.contains(x) by {
            if shared.contains(x) {
                let j = offers.unref().index_of(x);
                assert(*offers[j] == x);
            }
            if common@.contains(x) {
                let k = common@.index_of(x);
                let j = choose|j: int| 0 <= j < offers.len() && *#[trigger] offers[j] == common@[k];
                assert(offers.unref()[j] == x);
            }
        }
        assert(common@.to_set() =~= shared);
        if common@.len() > 0 {
            assert(shared.contains(common@[0]));
        } else {
            assert(shared =~= Set::empty());
        }
    }
    if common.len() == 0 {
        common.push(linear_modifier());
        assert(common@ =~= seq![LINEAR]);
    }
    common
}

/// The modifiers that two sides agree on.
#[derive(Debug)]
pub struct Agreement {
    pub modifiers: Vec<u64>,
    /// Whether they have no modifier in common, and fall back to [`LINEAR`].
    pub fallback: bool,
}

impl Agreement {
    /// Whether this is what the two sides agree on.
    pub open spec fn between(self, offered: Set<u64>, supported: Set<u64>) -> bool {
        &&& usable(offered, supported, self.modifiers@)
        &&& self.fallback == offered.disjoint(supported)
    }

    pub fn new(offered: &HashSet<u64>, supported: &HashSet<u64>) -> (r: Self)
        ensures
            r.between(offered@, supported@),
    {
        let modifiers = usable_modifiers(offered, supported);
        proof {
            agreement_is_mutual(offered@, supported@, modifiers@);
        }
        let first: u64 = modifiers[0];
        assert(modifiers@.contains(first));
        let fallback = !(offered.contains(&first) && supported.contains(&first));
        Agreement { modifiers, fallback }
    }
}

/// Whether `outcome` is what the two sides agree on, for a blob that was read.
pub open spec fn negotiated<B: Backend>(
    backend: B,
    format: Format,
    read: Result<format_modifier::BlobContents, DrmFormatParseError>,
    outcome: Result<Agreement, ScanoutError<B>>,
) -> bool {
    match read {
        Ok(contents) => exists|offered: Set<u64>|
            {
                &&& #[trigger] backend.offered(format, offered)
                &&& outcome matches Ok(agreement)
                &&& agreement.between(offered, plane_modifiers(contents, format.0))
            },
        Err(e) => outcome == Err::<Agreement, ScanoutError<B>>(ScanoutError::DrmFormat(e)),
    }
}

/// The modifiers that buffers of the format may have. `in_formats` is the
/// content of the blob that the plane's properties name, where there is one.
pub fn negotiate<B: Backend>(backend: &B, format: Format, in_formats: Option<Vec<u8>>) -> (r: Result<
    Agreement,
    ScanoutError<B>,
>)
    ensures
        match in_formats {
            None => r == Err::<Agreement, ScanoutError<B>>(ScanoutError::CannotGetDrmFormats),
            Some(bytes) => negotiated(
                *backend,
                format,
                format_modifier::parsed(format_modifier::native(), bytes@),
                r,
            ),
        },
{
    let supported: HashSet<u64> = drm_modifiers(in_formats, format.fourcc())?;
    let offered: HashSet<u64> = backend.modifiers(format);
    Ok(Agreement::new(&offered, &supported))
}

/// What is agreed on is never nothing, and never [`INVALID`].
pub proof fn agreement_is_usable(
    offered: Set<u64>,
    contents: format_modifier::BlobContents,
    fourcc: u32,
    modifiers: Seq<u64>,
)
    requires
        usable(offered, plane_modifiers(contents, fourcc), modifiers),
    ensures
        modifiers.len() > 0,
        !modifiers.contains(INVALID),
{
    agreement_is_mutual(offered, plane_modifiers(contents, fourcc), modifiers);
}

/// Something is agreed on, and all of it is known to both sides, but for
/// [`LINEAR`] where they have nothing in common.
pub proof fn agreement_is_mutual(offered: Set<u64>, supported: Set<u64>, modifiers: Seq<u64>)
    requires
        usable(offered, supported, modifiers),
    ensures
        modifiers.len() > 0,
        forall|m: u64| #[trigger]
            modifiers.contains(m) ==> (offered.contains(m) && supported.contains(m)) || (m == LINEAR
                && offered.disjoint(supported)),
        forall|m: u64|
            offered.contains(m) && supported.contains(m) ==> #[trigger] modifiers.contains(m),
{
    let common = offered.intersect(supported);
    assert forall|m: u64| offered.contains(m) && supported.contains(
        m,
    ) implies #[trigger] modifiers.contains(m) by {
        assert(common.contains(m));
        assert(modifiers.to_set().contains(m));
    }
    assert forall|m: u64| #[trigger] modifiers.contains(m) implies (offered.contains(m)
        && supported.contains(m)) || (m == LINEAR && offered.disjoint(supported)) by {
        if common == Set::<u64>::empty() {
            assert forall|x: u64| offered.contains(x) implies !supported.contains(x) by {
                if supported.contains(x) {
                    assert(common.contains(x));
                }
            }
        } else {
            assert(modifiers.to_set().contains(m));
        }
    }
    if common != Set::<u64>::empty() {
        let m = choose|m: u64| common.contains(m);
        if forall|m: u64| !common.contains(m) {
            assert(common =~= Set::empty());
        }
        assert(modifiers.contains(m));
    }
}

/// A plane supports for a format exactly the modifiers that its blob names for
/// the format, the one that says that no modifier is known left out, and no other.
pub proof fn planes_support_what_their_blob_names(
    contents: format_modifier::BlobContents,
    fourcc: u32,
    m: u64,
)
    ensures
        plane_modifiers(contents, fourcc).contains(m) <==> {
            &&& format_modifier::modifiers_of(contents, fourcc).contains(m)
            &&& m != 0x00ff_ffff_ffff_ffff
        },
{
}

/// A plane supports a modifier for a format exactly where some entry of its blob
/// holds the modifier and has the binary digit of the format's first place set.
pub proof fn planes_support_what_an_entry_gives(
    contents: format_modifier::BlobContents,
    fourcc: u32,
    place: int,
    m: u64,
)
    requires
        0 <= place < contents.formats.len(),
        contents.formats[place] == fourcc,
        forall|j: int| 0 <= j < place ==> contents.formats[j] != fourcc,
    ensures
        plane_modifiers(contents, fourcc).contains(m) <==> {
            &&& m != 0x00ff_ffff_ffff_ffff
            &&& exists|k: int|
                {
                    let e = #[trigger] contents.modifiers[k];
                    &&& 0 <= k < contents.modifiers.len()
                    &&& e.modifier == m
                    &&& e.offset <= place < e.offset + 64
                    &&& (e.formats as int / pow2((place - e.offset) as nat) as int) % 2 == 1
                }
        },
{
    contents.formats.index_of_first_ensures(fourcc);
    assert(contents.formats.contains(fourcc));
    format_modifier::modifiers_come_from_covering_entries(contents, fourcc, m);
    assert forall|k: int| 0 <= k < contents.modifiers.len() implies {
        let e = #[trigger] contents.modifiers[k];
        e.covers(place) <==> e.offset <= place < e.offset + 64 && (e.formats as int / pow2(
            (place - e.offset) as nat,
        ) as int) % 2 == 1
    } by {
        format_modifier::entries_cover_by_binary_digits(contents.modifiers[k], place);
    }
}

/// What is known of the modifiers of a plane comes from its blob: they are known
/// exactly where the blob can be read, and otherwise what is wrong with it is told.
pub proof fn modifiers_are_known_of_readable_blobs<B: Backend>(
    read: Result<format_modifier::BlobContents, DrmFormatParseError>,
    fourcc: u32,
    outcome: Result<HashSet<u64>, ScanoutError<B>>,
)
    requires
        supports(read, fourcc, outcome),
    ensures
        match outcome {
            Ok(modifiers) => {
                &&& read is Ok
                &&& forall|m: u64| #[trigger]
                    modifiers@.contains(m) <==> format_modifier::modifiers_of(
                        read->Ok_0,
                        fourcc,
                    ).contains(m) && m != 0x00ff_ffff_ffff_ffff
            },
            Err(ScanoutError::DrmFormat(e)) => read == Err::<
                format_modifier::BlobContents,
                DrmFormatParseError,
            >(e),
            Err(_) => false,
        },
{
}

/// Each modifier that both sides know is agreed on once; where they know none in
/// common, the linear layout is, and nothing else; and so it is noted.
pub proof fn agreements_hold_each_common_modifier_once(
    offered: Set<u64>,
    supported: Set<u64>,
    agreement: Agreement,
    m: u64,
)
    requires
        agreement.between(offered, supported),
    ensures
        forall|i: int, j: int|
            0 <= i < j < agreement.modifiers@.len() ==> agreement.modifiers@[i]
                != agreement.modifiers@[j],
        agreement.fallback <==> forall|x: u64| #[trigger] offered.contains(x) ==> !supported.contains(x),
        agreement.fallback ==> agreement.modifiers@ == seq![0u64],
        !agreement.fallback ==> (agreement.modifiers@.contains(m) <==> offered.contains(m)
            && supported.contains(m)),
{
    agreement_is_mutual(offered, supported, agreement.modifiers@);
    let common = offered.intersect(supported);
    if agreement.fallback {
        assert(common =~= Set::empty());
    } else {
        let x = choose|x: u64| offered.contains(x) && supported.contains(x);
        assert(common.contains(x));
    }
}

/// The modifiers of buffers are agreed on exactly where the blob of the plane can
/// be read: between what the renderer offers for the format and what the blob
/// names for it.
pub proof fn negotiation_weighs_offer_against_blob<B: Backend>(
    backend: B,
    format: Format,
    read: Result<format_modifier::BlobContents, DrmFormatParseError>,
    outcome: Result<Agreement, ScanoutError<B>>,
)
    requires
        negotiated(backend, format, read, outcome),
    ensures
        match outcome {
            Ok(agreement) => {
                &&& read is Ok
                &&& agreement.fallback ==> agreement.modifiers@ == seq![0u64]
                &&& forall|i: int, j: int|
                    0 <= i < j < agreement.modifiers@.len() ==> agreement.modifiers@[i]
                        != agreement.modifiers@[j]
                &&& exists|offered: Set<u64>|
                    {
                        let named = format_modifier::modifiers_of(read->Ok_0, format.0);
                        &&& #[trigger] backend.offered(format, offered)
                        &&& !agreement.fallback ==> forall|m: u64|
                            #[trigger] agreement.modifiers@.contains(m) <==> offered.contains(m)
                                && named.contains(m) && m != 0x00ff_ffff_ffff_ffff
                        &&& agreement.fallback <==> forall|m: u64|
                            offered.contains(m) && m != 0x00ff_ffff_ffff_ffff
                                ==> !#[trigger] named.contains(m)
                    }
            },
            Err(ScanoutError::DrmFormat(e)) => read == Err::<
                format_modifier::BlobContents,
                DrmFormatParseError,
            >(e),
            Err(_) => false,
        },
{
    if let Ok(contents) = read {
        let supported = plane_modifiers(contents, format.0);
        let named = format_modifier::modifiers_of(contents, format.0);
        let agreement = outcome->Ok_0;
        let offered = choose|offered: Set<u64>|
            #[trigger] backend.offered(format, offered) && agreement.between(offered, supported);
        agreements_hold_each_common_modifier_once(offered, supported, agreement, 0);
        agreement_is_mutual(offered, supported, agreement.modifiers@);
        assert(forall|m: u64|
            supported.contains(m) <==> #[trigger] named.contains(m) && m != 0x00ff_ffff_ffff_ffff);
    }
}

} // verus!

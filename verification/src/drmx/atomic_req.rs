//! Atomic requests: several properties that are set at once.

use super::mode::Mode;
use super::property::{find_named, NamedProperty};
use crate::drmx::property;
use crate::search;
use vstd::prelude::*;

verus! {

/// A DRM object, by its handle.
#[derive(Debug, Clone, Copy, PartialEq, Eq, Structural)]
pub enum Object {
    Connector(u32),
    Crtc(u32),
    Plane(u32),
}

/// The properties that requests set.
#[derive(Debug, Clone, Copy, PartialEq, Eq, Structural)]
pub enum Property {
    CrtcId,
    Active,
    ModeId,
    FbId,
    SrcX,
    SrcY,
    SrcW,
    SrcH,
    CrtcX,
    CrtcY,
    CrtcW,
    CrtcH,
    InFenceFd,
    OutFencePtr,
}

impl Property {
    /// The name that DRM knows the property by.
    pub open spec fn text(self) -> Seq<char> {
        match self {
            Property::CrtcId => "CRTC_ID"@,
            Property::Active => "ACTIVE"@,
            Property::ModeId => "MODE_ID"@,
            Property::FbId => "FB_ID"@,
            Property::SrcX => "SRC_X"@,
            Property::SrcY => "SRC_Y"@,
            Property::SrcW => "SRC_W"@,
            Property::SrcH => "SRC_H"@,
            Property::CrtcX => "CRTC_X"@,
            Property::CrtcY => "CRTC_Y"@,
            Property::CrtcW => "CRTC_W"@,
            Property::CrtcH => "CRTC_H"@,
            Property::InFenceFd => "IN_FENCE_FD"@,
            Property::OutFencePtr => "OUT_FENCE_PTR"@,
        }
    }

    pub fn name(&self) -> (r: &'static str)
        ensures
            r@ == self.text(),
    {
        match *self {
            Property::CrtcId => "CRTC_ID",
            Property::Active => "ACTIVE",
            Property::ModeId => "MODE_ID",
            Property::FbId => "FB_ID",
            Property::SrcX => "SRC_X",
            Property::SrcY => "SRC_Y",
            Property::SrcW => "SRC_W",
            Property::SrcH => "SRC_H",
            Property::CrtcX => "CRTC_X",
            Property::CrtcY => "CRTC_Y",
            Property::CrtcW => "CRTC_W",
            Property::CrtcH => "CRTC_H",
            Property::InFenceFd => "IN_FENCE_FD",
            Property::OutFencePtr => "OUT_FENCE_PTR",
        }
    }
}

/// A number with 16 bits before and 16 bits after the binary point.
#[derive(Debug, Clone, Copy, PartialEq, Eq, Structural)]
pub struct Fixed16(pub u32);

impl Fixed16 {
    /// The fixed-point form of a whole number.
    pub open spec fn whole(value: u16) -> Fixed16 {
        Fixed16((value * 0x1_0000) as u32)
    }

    pub fn integer(value: u16) -> (r: Fixed16)
        ensures
            r == Fixed16::whole(value),
            r.0 == value * 0x1_0000,
    {
        Fixed16(value as u32 * 0x1_0000)
    }
}

/// What a property is set to. `F` is a fence: what signals that work is done.
#[derive(Debug, PartialEq, Eq)]
pub enum Value<F> {
    /// The handle of another object, or none.
    Handle(Option<u32>),
    Boolean(bool),
    Mode(Option<Mode>),
    Fixed(Fixed16),
    Signed(i32),
    Unsigned(u32),
    /// The fence to wait for, or none.
    InFence(Option<F>),
    /// Where the kernel puts the fence that it makes.
    OutFence,
}

/// A property of an object, and what it shall be set to.
#[derive(Debug, PartialEq, Eq)]
pub struct Assignment<F> {
    pub object: Object,
    pub property: Property,
    pub value: Value<F>,
}

/// An [`Assignment`] with the handle of the property in place of its name.
#[derive(Debug, PartialEq, Eq)]
pub struct Setting<F> {
    pub object: Object,
    pub property: u32,
    pub value: Value<F>,
}

/// Why a request could not be made.
#[derive(Debug, Clone, Copy, PartialEq, Eq, Structural)]
pub enum AtomicReqError {
    /// The object has no property of this name.
    MissingProperty { object: Object, property: Property },
}

/// The properties of one object.
#[derive(Debug)]
pub struct ObjectProperties {
    pub object: Object,
    pub properties: Vec<NamedProperty>,
}

/// The properties of the objects that requests speak of, as they were read.
#[derive(Debug)]
pub struct AtomicRequestCache {
    pub objects: Vec<ObjectProperties>,
}

impl AtomicRequestCache {
    /// The handle of a property of an object, where the object has the property.
    pub open spec fn handle_of(self, object: Object, property: Property) -> Option<u32> {
        match search::first_where(self.objects@, |o: ObjectProperties| o.object == object) {
            Some(i) => match property::first_named(
                self.objects@[i].properties@,
                property.text(),
            ) {
                Some(p) => Some(p.id),
                None => None,
            },
            None => None,
        }
    }

    pub fn property_handle(&self, object: Object, property: Property) -> (r: Option<u32>)
        ensures
            r == self.handle_of(object, property),
    {
        let ghost wanted = |o: ObjectProperties| o.object == object;
        proof {
            search::first_where_is_first(self.objects@, wanted);
        }
        let mut i: usize = 0;
        while i < self.objects.len()
            invariant
                i <= self.objects@.len(),
                wanted == (|o: ObjectProperties| o.object == object),
                forall|j: int| 0 <= j < i ==> !wanted(#[trigger] self.objects@[j]),
            decreases self.objects@.len() - i,
        {
            if self.objects[i].object == object {
                proof {
                    search::first_where_is_first(self.objects@, wanted);
                    assert(wanted(self.objects@[i as int]));
                }
                return match find_named(&self.objects[i].properties, property.name()) {
                    Some(p) => Some(p.id),
                    None => None,
                };
            }
            i = i + 1;
        }
        None
    }

    /// The settings that the assignments stand for, in their order, or the
    /// first of them that names a property which the object does not have.
    pub open spec fn resolved<F>(self, assignments: Seq<Assignment<F>>) -> Result<
        Seq<Setting<F>>,
        AtomicReqError,
    >
        decreases assignments.len(),
    {
        if assignments.len() == 0 {
            Ok(Seq::empty())
        } else {
            let a = assignments.last();
            match self.resolved(assignments.drop_last()) {
                Err(e) => Err(e),
                Ok(settings) => match self.handle_of(a.object, a.property) {
                    Some(property) => Ok(
                        settings.push(Setting { object: a.object, property, value: a.value }),
                    ),
                    None => Err(
                        AtomicReqError::MissingProperty { object: a.object, property: a.property },
                    ),
                },
            }
        }
    }
}

/// An assignment that cannot be resolved decides about all that follow it.
proof fn lemma_error_stays<F>(
    cache: AtomicRequestCache,
    assignments: Seq<Assignment<F>>,
    count: int,
)
    requires
        0 <= count <= assignments.len(),
        cache.resolved(assignments.take(count)) is Err,
    ensures
        cache.resolved(assignments) == cache.resolved(assignments.take(count)),
    decreases assignments.len() - count,
{
    if count < assignments.len() {
        assert(assignments.take(count + 1).drop_last() =~= assignments.take(count));
        lemma_error_stays(cache, assignments, count + 1);
    } else {
        assert(assignments.take(count) =~= assignments);
    }
}

/// A request that is being put together.
#[derive(Debug)]
pub struct AtomicRequest<F> {
    pub settings: Vec<Setting<F>>,
}

impl<F> AtomicRequest<F> {
    /// A request that sets nothing.
    pub fn new() -> (r: Self)
        ensures
            r.settings@ == Seq::<Setting<F>>::empty(),
    {
        AtomicRequest { settings: Vec::new() }
    }

    /// Adds one assignment.
    pub fn set(
        self,
        cache: &AtomicRequestCache,
        object: Object,
        property: Property,
        value: Value<F>,
    ) -> (r: Result<Self, AtomicReqError>)
        ensures
            match r {
                Ok(request) => {
                    &&& cache.handle_of(object, property) matches Some(handle)
                    &&& request.settings@ == self.settings@.push(
                        Setting { object, property: handle, value },
                    )
                },
                Err(e) => {
                    &&& cache.handle_of(object, property) is None
                    &&& e == AtomicReqError::MissingProperty { object, property }
                },
            },
    {
        match cache.property_handle(object, property) {
            Some(handle) => {
                let mut request = self;
                request.settings.push(Setting { object, property: handle, value });
                Ok(request)
            },
            None => Err(AtomicReqError::MissingProperty { object, property }),
        }
    }

    /// A request made of all the assignments, in their order.
    pub fn of(cache: &AtomicRequestCache, assignments: Vec<Assignment<F>>) -> (r: Result<
        Self,
        AtomicReqError,
    >)
        ensures
            match r {
                Ok(request) => cache.resolved(assignments@) == Ok::<Seq<Setting<F>>, AtomicReqError>(
                    request.settings@,
                ),
                Err(e) => cache.resolved(assignments@) == Err::<Seq<Setting<F>>, AtomicReqError>(e),
            },
    {
        let mut request = AtomicRequest::new();
        let ghost all = assignments@;
        for a in iter: assignments
            invariant
                iter.seq() == all,
                cache.resolved(all.take(iter.index() as int)) == Ok::<
                    Seq<Setting<F>>,
                    AtomicReqError,
                >(request.settings@),
        {
            proof {
                let count = iter.index() as int;
                assert(all.take(count + 1).drop_last() =~= all.take(count));
                assert(all.take(count + 1).last() == a);
                if cache.handle_of(a.object, a.property) is None {
                    lemma_error_stays(*cache, all, count + 1);
                }
            }
            request = request.set(cache, a.object, a.property, a.value)?;
        }
        assert(all.take(all.len() as int) =~= all);
        Ok(request)
    }
}

/// The flag of a commit that may change the mode.
pub const ALLOW_MODESET: u32 = 0x400;

/// The flags of a commit that does not wait for the flip, but has it announced.
pub const ANNOUNCED_FLIP: u32 = 0x201;

/// Calls `AtomicCommitFlags::bits` of the `drm` crate on `ALLOW_MODESET`, and
/// claims that it gives [`ALLOW_MODESET`].
#[verifier::external_body]
fn allow_modeset_bits() -> (r: u32)
    ensures
        r == ALLOW_MODESET,
{
    drm::control::AtomicCommitFlags::ALLOW_MODESET.bits()
}

/// Calls `AtomicCommitFlags::bits` of the `drm` crate on the union of
/// `PAGE_FLIP_EVENT` and `NONBLOCK`, and claims that it gives [`ANNOUNCED_FLIP`].
#[verifier::external_body]
fn announced_flip_bits() -> (r: u32)
    ensures
        r == ANNOUNCED_FLIP,
{
    drm::control::AtomicCommitFlags::PAGE_FLIP_EVENT.union(
        drm::control::AtomicCommitFlags::NONBLOCK,
    ).bits()
}

/// A request as it has to be committed.
#[derive(Debug, PartialEq, Eq)]
pub struct Commit<F> {
    pub settings: Vec<Setting<F>>,
    pub flags: u32,
}

impl<F> AtomicRequest<F> {
    /// The request, to be committed with leave to change the mode.
    pub fn commit_modeset(self) -> (r: Commit<F>)
        ensures
            r.settings == self.settings,
            r.flags == ALLOW_MODESET,
            r.flags == 0x400,
    {
        Commit { settings: self.settings, flags: allow_modeset_bits() }
    }

    /// The request, to be committed without waiting for the flip.
    pub fn commit_flip(self) -> (r: Commit<F>)
        ensures
            r.settings == self.settings,
            r.flags == ANNOUNCED_FLIP,
            r.flags == 0x200 + 0x1,
    {
        Commit { settings: self.settings, flags: announced_flip_bits() }
    }
}

/// A request sets exactly what is asked for, in the order in which it is asked
/// for, and each property by its handle.
pub proof fn requests_set_what_is_asked<F>(
    cache: AtomicRequestCache,
    assignments: Seq<Assignment<F>>,
)
    ensures
        cache.resolved(assignments) matches Ok(settings) ==> {
            &&& settings.len() == assignments.len()
            &&& forall|k: int|
                0 <= k < settings.len() ==> {
                    &&& (#[trigger] settings[k]).object == assignments[k].object
                    &&& settings[k].value == assignments[k].value
                    &&& cache.handle_of(assignments[k].object, assignments[k].property) == Some(
                        settings[k].property,
                    )
                }
        },
    decreases assignments.len(),
{
    if assignments.len() > 0 {
        requests_set_what_is_asked(cache, assignments.drop_last());
    }
}

/// A request can be made where, and only where, each object has the property
/// that is set.
pub proof fn requests_need_their_properties<F>(
    cache: AtomicRequestCache,
    assignments: Seq<Assignment<F>>,
)
    ensures
        cache.resolved(assignments) is Ok <==> forall|k: int|
            0 <= k < assignments.len() ==> cache.handle_of(
                (#[trigger] assignments[k]).object,
                assignments[k].property,
            ) is Some,
    decreases assignments.len(),
{
    if assignments.len() > 0 {
        let shorter = assignments.drop_last();
        requests_need_their_properties(cache, shorter);
        assert forall|k: int| 0 <= k < shorter.len() implies shorter[k] == #[trigger] assignments[k] by {}
    }
}

/// No two properties have the same name.
pub proof fn properties_have_names_of_their_own(one: Property, other: Property)
    requires
        one.text() == other.text(),
    ensures
        one == other,
{
    reveal_strlit("CRTC_ID");
    reveal_strlit("ACTIVE");
    reveal_strlit("MODE_ID");
    reveal_strlit("FB_ID");
    reveal_strlit("SRC_X");
    reveal_strlit("SRC_Y");
    reveal_strlit("SRC_W");
    reveal_strlit("SRC_H");
    reveal_strlit("CRTC_X");
    reveal_strlit("CRTC_Y");
    reveal_strlit("CRTC_W");
    reveal_strlit("CRTC_H");
    reveal_strlit("IN_FENCE_FD");
    reveal_strlit("OUT_FENCE_PTR");
    let (a, b) = (one.text(), other.text());
    assert(a.len() == b.len());
    assert(a[0] == b[0]);
    assert(a[a.len() - 1] == b[b.len() - 1]);
}

/// A whole number in fixed point is the number before the binary point, and
/// nothing after it.
pub proof fn whole_numbers_have_no_fraction(value: u16)
    ensures
        Fixed16::whole(value).0 / 0x1_0000 == value,
        Fixed16::whole(value).0 % 0x1_0000 == 0,
{
}

/// The handle of a property is the one that was read with it: for the first
/// entry of the object, and there for the first property of the name.
pub proof fn handles_are_those_that_were_read(
    cache: AtomicRequestCache,
    object: Object,
    property: Property,
    entry: int,
    place: int,
)
    requires
        0 <= entry < cache.objects@.len(),
        cache.objects@[entry].object == object,
        forall|j: int| 0 <= j < entry ==> (#[trigger] cache.objects@[j]).object != object,
    ensures
        ({
            let properties = cache.objects@[entry].properties@;
            let here = |i: int|
                properties[i].name is Some && properties[i].name->Some_0@ == property.text();
            &&& 0 <= place < properties.len() && here(place) && (forall|j: int|
                0 <= j < place ==> !#[trigger] here(j)) ==> cache.handle_of(object, property)
                == Some(properties[place].id)
            &&& (forall|j: int| 0 <= j < properties.len() ==> !#[trigger] here(j))
                ==> cache.handle_of(object, property) is None
        }),
{
    let wanted = |o: ObjectProperties| o.object == object;
    search::first_where_is_first(cache.objects@, wanted);
    assert(wanted(cache.objects@[entry]));
    assert(search::first_where(cache.objects@, wanted) == Some(entry));
    let properties = cache.objects@[entry].properties@;
    let here = |i: int|
        properties[i].name is Some && properties[i].name->Some_0@ == property.text();
    property::the_first_property_of_a_name_is_found(properties, property.text(), place);
    let same = |i: int|
        properties[i].name is Some && properties[i].name->Some_0@ == property.text();
    assert(forall|j: int| same(j) == #[trigger] here(j));
}

/// An object that was not read has no properties.
pub proof fn unread_objects_have_no_handles(
    cache: AtomicRequestCache,
    object: Object,
    property: Property,
)
    requires
        forall|j: int|
            0 <= j < cache.objects@.len() ==> (#[trigger] cache.objects@[j]).object != object,
    ensures
        cache.handle_of(object, property) is None,
{
    search::first_where_is_first(cache.objects@, |o: ObjectProperties| o.object == object);
}

/// Where a request cannot be made, the first property that is missing is told,
/// and the object that does not have it.
pub proof fn the_first_missing_property_is_told<F>(
    cache: AtomicRequestCache,
    assignments: Seq<Assignment<F>>,
    place: int,
)
    requires
        0 <= place < assignments.len(),
        cache.handle_of(assignments[place].object, assignments[place].property) is None,
        forall|j: int|
            0 <= j < place ==> cache.handle_of(
                (#[trigger] assignments[j]).object,
                assignments[j].property,
            ) is Some,
    ensures
        cache.resolved(assignments) == Err::<Seq<Setting<F>>, AtomicReqError>(
            AtomicReqError::MissingProperty {
                object: assignments[place].object,
                property: assignments[place].property,
            },
        ),
{
    let before = assignments.take(place);
    requests_need_their_properties(cache, before);
    assert forall|j: int| 0 <= j < before.len() implies cache.handle_of(
        (#[trigger] before[j]).object,
        before[j].property,
    ) is Some by {
        assert(before[j] == assignments[j]);
    }
    assert(assignments.take(place + 1).drop_last() =~= before);
    assert(assignments.take(place + 1).last() == assignments[place]);
    lemma_error_stays(cache, assignments, place + 1);
}

} // verus!

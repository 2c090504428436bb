//! Choosing the display pipeline to drive: connector, CRTC, mode and plane.

use crate::drmx::mode;
use crate::drmx::property::NamedProperty;
use crate::drmx::Mode;
use crate::search;
use vstd::prelude::*;

verus! {

/// Why there is nothing to drive.
#[derive(Debug, PartialEq, Eq)]
pub enum SelectError {
    NotConnected,
    NoCrtc,
    /// The connector, whose interface is named, has no mode.
    NoMode { interface: String },
    NoPrimaryPlane,
}

impl SelectError {
    /// The text that tells a user what is wrong.
    pub open spec fn text(self) -> Seq<char> {
        match self {
            SelectError::NotConnected => "Not connected to any display!"@,
            SelectError::NoCrtc => "Cannot find a suitable CRTC!"@,
            SelectError::NoMode { interface } => "Cannot find suitable mode for connector "@
                + interface@,
            SelectError::NoPrimaryPlane => "cannot find suitable primary plane"@,
        }
    }

    pub fn message(&self) -> (r: String)
        ensures
            r@ == self.text(),
    {
        match self {
            SelectError::NotConnected => "Not connected to any display!".to_owned(),
            SelectError::NoCrtc => "Cannot find a suitable CRTC!".to_owned(),
            SelectError::NoMode { interface } => "Cannot find suitable mode for connector ".to_owned().concat(
                interface.as_str(),
            ),
            SelectError::NoPrimaryPlane => "cannot find suitable primary plane".to_owned(),
        }
    }
}

/// Whether a display is connected to a connector.
#[derive(Debug, Clone, Copy, PartialEq, Eq, Structural)]
pub enum ConnectorState {
    Connected,
    Disconnected,
    Unknown,
}

/// A connector that was read and has a display.
pub open spec fn is_connected(connector: Option<ConnectorState>) -> bool {
    connector == Some(ConnectorState::Connected)
}

/// The index of the first connector that has a display. `None` stands for a
/// connector that could not be read.
pub fn pick_connector(connectors: &Vec<Option<ConnectorState>>) -> (r: Result<usize, SelectError>)
    ensures
        match search::first_where(connectors@, |c: Option<ConnectorState>| is_connected(c)) {
            Some(i) => r == Ok::<usize, SelectError>(i as usize),
            None => r == Err::<usize, SelectError>(SelectError::NotConnected),
        },
{
    let ghost wanted = |c: Option<ConnectorState>| is_connected(c);
    proof {
        search::first_where_is_first(connectors@, wanted);
    }
    let mut i: usize = 0;
    while i < connectors.len()
        invariant
            i <= connectors@.len(),
            wanted == (|c: Option<ConnectorState>| is_connected(c)),
            forall|j: int| 0 <= j < i ==> !wanted(#[trigger] connectors@[j]),
        decreases connectors@.len() - i,
    {
        if let Some(ConnectorState::Connected) = connectors[i] {
            proof {
                search::first_where_is_first(connectors@, wanted);
                assert(wanted(connectors@[i as int]));
            }
            return Ok(i);
        }
        i = i + 1;
    }
    Err(SelectError::NotConnected)
}

/// The CRTCs of all encoders that could be read, one encoder after another.
pub open spec fn crtcs_of(encoders: Seq<Option<Vec<u32>>>) -> Seq<u32>
    decreases encoders.len(),
{
    if encoders.len() == 0 {
        Seq::empty()
    } else {
        match encoders.last() {
            Some(crtcs) => crtcs_of(encoders.drop_last()) + crtcs@,
            None => crtcs_of(encoders.drop_last()),
        }
    }
}

/// The CRTCs that the encoders of a connector can be driven by. `None` stands
/// for an encoder that could not be read.
pub fn compatible_crtcs(encoders: &Vec<Option<Vec<u32>>>) -> (r: Vec<u32>)
    ensures
        r@ == crtcs_of(encoders@),
{
    let mut all: Vec<u32> = Vec::new();
    let mut i: usize = 0;
    while i < encoders.len()
        invariant
            i <= encoders@.len(),
            all@ == crtcs_of(encoders@.take(i as int)),
        decreases encoders@.len() - i,
    {
        assert(encoders@.take(i + 1).drop_last() =~= encoders@.take(i as int));
        if let Some(crtcs) = &encoders[i] {
            all.extend_from_slice(crtcs.as_slice());
        }
        i = i + 1;
    }
    assert(encoders@.take(i as int) =~= encoders@);
    all
}

/// The CRTC to use: the one that is in use, where it is compatible, or else the
/// first that is.
pub open spec fn chosen_crtc(compatible: Seq<u32>, before: Option<u32>) -> Option<u32> {
    if before is Some && compatible.contains(before->0) {
        before
    } else if compatible.len() > 0 {
        Some(compatible[0])
    } else {
        None
    }
}

pub fn pick_crtc(compatible: &Vec<u32>, before: Option<u32>) -> (r: Result<u32, SelectError>)
    ensures
        r == (match chosen_crtc(compatible@, before) {
            Some(crtc) => Ok::<u32, SelectError>(crtc),
            None => Err(SelectError::NoCrtc),
        }),
{
    if let Some(crtc) = before {
        if has_crtc(compatible, crtc) {
            return Ok(crtc);
        }
    }
    if compatible.len() > 0 {
        Ok(compatible[0])
    } else {
        Err(SelectError::NoCrtc)
    }
}

fn has_crtc(crtcs: &Vec<u32>, crtc: u32) -> (r: bool)
    ensures
        r == crtcs@.contains(crtc),
{
    let mut i: usize = 0;
    while i < crtcs.len()
        invariant
            i <= crtcs@.len(),
            forall|j: int| 0 <= j < i ==> crtcs@[j] != crtc,
        decreases crtcs@.len() - i,
    {
        if crtcs[i] == crtc {
            return true;
        }
        i = i + 1;
    }
    false
}

/// The mode to use: the first that the display prefers, or else the first.
pub open spec fn chosen_mode(modes: Seq<Mode>) -> Option<Mode> {
    match search::first_where(modes, |m: Mode| m.preferred()) {
        Some(i) => Some(modes[i]),
        None => if modes.len() > 0 {
            Some(modes[0])
        } else {
            None
        },
    }
}

/// The mode to use. `interface` names the interface of the connector.
pub fn pick_mode(modes: &Vec<Mode>, interface: String) -> (r: Result<Mode, SelectError>)
    ensures
        r == (match chosen_mode(modes@) {
            Some(mode) => Ok::<Mode, SelectError>(mode),
            None => Err(SelectError::NoMode { interface }),
        }),
{
    let ghost wanted = |m: Mode| m.preferred();
    proof {
        search::first_where_is_first(modes@, wanted);
    }
    let mut i: usize = 0;
    while i < modes.len()
        invariant
            i <= modes@.len(),
            wanted == (|m: Mode| m.preferred()),
            forall|j: int| 0 <= j < i ==> !wanted(#[trigger] modes@[j]),
        decreases modes@.len() - i,
    {
        if modes[i].is_preferred() {
            proof {
                search::first_where_is_first(modes@, wanted);
                assert(wanted(modes@[i as int]));
            }
            return Ok(modes[i]);
        }
        i = i + 1;
    }
    if modes.len() > 0 {
        Ok(modes[0])
    } else {
        Err(SelectError::NoMode { interface })
    }
}

/// What a plane is for.
#[derive(Debug, Clone, Copy, PartialEq, Eq, Structural)]
pub enum PlaneType {
    Overlay,
    Primary,
    Cursor,
}

/// The value of the `type` property of an overlay plane.
pub const TYPE_OVERLAY: u64 = 0;

/// The value of the `type` property of a primary plane.
pub const TYPE_PRIMARY: u64 = 1;

/// The value of the `type` property of a cursor plane.
pub const TYPE_CURSOR: u64 = 2;

/// What a plane is for, by the value of its `type` property.
pub open spec fn plane_type_of(value: u64) -> Option<PlaneType> {
    if value == TYPE_PRIMARY {
        Some(PlaneType::Primary)
    } else if value == TYPE_CURSOR {
        Some(PlaneType::Cursor)
    } else if value == TYPE_OVERLAY {
        Some(PlaneType::Overlay)
    } else {
        None
    }
}

/// The type that a property says the plane has, where it says so.
pub open spec fn said_type(p: NamedProperty) -> Option<PlaneType> {
    if p.is_named("type"@) {
        plane_type_of(p.value)
    } else {
        None
    }
}

/// The type of a plane: that of the first property that says one.
pub open spec fn type_among(properties: Seq<NamedProperty>) -> Option<PlaneType> {
    match search::first_where(properties, |p: NamedProperty| said_type(p) is Some) {
        Some(i) => said_type(properties[i]),
        None => None,
    }
}

pub fn plane_type(properties: &Vec<NamedProperty>) -> (r: Option<PlaneType>)
    ensures
        r == type_among(properties@),
{
    let ghost wanted = |p: NamedProperty| said_type(p) is Some;
    proof {
        search::first_where_is_first(properties@, wanted);
    }
    let mut i: usize = 0;
    while i < properties.len()
        invariant
            i <= properties@.len(),
            wanted == (|p: NamedProperty| said_type(p) is Some),
            forall|j: int| 0 <= j < i ==> !wanted(#[trigger] properties@[j]),
        decreases properties@.len() - i,
    {
        let p = &properties[i];
        if p.has_name("type") {
            let found = match p.value {
                TYPE_PRIMARY => Some(PlaneType::Primary),
                TYPE_CURSOR => Some(PlaneType::Cursor),
                TYPE_OVERLAY => Some(PlaneType::Overlay),
                _ => None,
            };
            if found.is_some() {
                proof {
                    search::first_where_is_first(properties@, wanted);
                    assert(wanted(properties@[i as int]));
                }
                return found;
            }
        }
        i = i + 1;
    }
    None
}

/// A plane as it was read.
#[derive(Debug)]
pub struct PlaneInfo {
    pub handle: u32,
    /// The CRTCs that the plane can be shown on.
    pub crtcs: Vec<u32>,
    /// The plane's properties, or `None` where they could not be read.
    pub properties: Option<Vec<NamedProperty>>,
}

/// A plane that was read and is the primary plane of `crtc`.
pub open spec fn is_primary(plane: Option<PlaneInfo>, crtc: u32) -> bool {
    &&& plane matches Some(info)
    &&& info.crtcs@.contains(crtc)
    &&& info.properties matches Some(properties)
    &&& type_among(properties@) == Some(PlaneType::Primary)
}

/// The first primary plane that can be shown on `crtc`. `None` stands for a
/// plane that could not be read.
pub fn pick_plane(planes: &Vec<Option<PlaneInfo>>, crtc: u32) -> (r: Result<u32, SelectError>)
    ensures
        match search::first_where(planes@, |p: Option<PlaneInfo>| is_primary(p, crtc)) {
            Some(i) => r == Ok::<u32, SelectError>(planes@[i]->0.handle),
            None => r == Err::<u32, SelectError>(SelectError::NoPrimaryPlane),
        },
{
    let ghost wanted = |p: Option<PlaneInfo>| is_primary(p, crtc);
    proof {
        search::first_where_is_first(planes@, wanted);
    }
    let mut i: usize = 0;
    while i < planes.len()
        invariant
            i <= planes@.len(),
            wanted == (|p: Option<PlaneInfo>| is_primary(p, crtc)),
            forall|j: int| 0 <= j < i ==> !wanted(#[trigger] planes@[j]),
        decreases planes@.len() - i,
    {
        if let Some(info) = &planes[i] {
            if let Some(properties) = &info.properties {
                if has_crtc(&info.crtcs, crtc) {
                    if let Some(PlaneType::Primary) = plane_type(properties) {
                        proof {
                            search::first_where_is_first(planes@, wanted);
                            assert(wanted(planes@[i as int]));
                        }
                        return Ok(info.handle);
                    }
                }
            }
        }
        i = i + 1;
    }
    Err(SelectError::NoPrimaryPlane)
}

/// The chosen CRTC is compatible, and it is the one in use wherever that one
/// is. None is chosen only where none is compatible.
pub proof fn chosen_crtc_is_compatible(compatible: Seq<u32>, before: Option<u32>)
    ensures
        match chosen_crtc(compatible, before) {
            Some(crtc) => compatible.contains(crtc),
            None => compatible.len() == 0,
        },
        before matches Some(crtc) && compatible.contains(crtc) ==> chosen_crtc(compatible, before)
            == before,
{
}

/// The chosen mode is one of the connector's, and a preferred one wherever
/// there is one. None is chosen only where there is none.
pub proof fn chosen_mode_is_offered(modes: Seq<Mode>)
    ensures
        match chosen_mode(modes) {
            Some(mode) => {
                &&& modes.contains(mode)
                &&& (exists|m: Mode| modes.contains(m) && #[trigger] m.preferred())
                    ==> mode.preferred()
            },
            None => modes.len() == 0,
        },
{
    let wanted = |m: Mode| m.preferred();
    search::first_where_is_first(modes, wanted);
    if exists|m: Mode| modes.contains(m) && #[trigger] m.preferred() {
        let m = choose|m: Mode| modes.contains(m) && #[trigger] m.preferred();
        let k = modes.index_of(m);
        assert(wanted(modes[k]));
    }
}

/// The connector that is picked could be read and has a display, and none before it
/// does. None is picked only where none has a display.
pub proof fn the_first_connected_connector_is_picked(
    connectors: Seq<Option<ConnectorState>>,
    place: int,
)
    ensures
        ({
            let picked = search::first_where(
                connectors,
                |c: Option<ConnectorState>| is_connected(c),
            );
            &&& picked == Some(place) <==> {
                &&& 0 <= place < connectors.len()
                &&& connectors[place] is Some
                &&& connectors[place]->0 is Connected
                &&& forall|j: int|
                    0 <= j < place ==> #[trigger] connectors[j] is None || connectors[j]->0
                        is Disconnected || connectors[j]->0 is Unknown
            }
            &&& picked is None <==> forall|j: int|
                0 <= j < connectors.len() ==> #[trigger] connectors[j] is None
                    || connectors[j]->0 is Disconnected || connectors[j]->0 is Unknown
        }),
{
    let wanted = |c: Option<ConnectorState>| is_connected(c);
    search::first_where_is_first(connectors, wanted);
    assert forall|j: int| 0 <= j < connectors.len() implies (wanted(#[trigger] connectors[j]) <==> !(
    connectors[j] is None || connectors[j]->0 is Disconnected || connectors[j]->0 is Unknown)) by {}
    if let Some(i) = search::first_where(connectors, wanted) {
        assert(wanted(connectors[i]));
    }
}

/// The CRTCs of a connector are those of its encoders, one encoder after another:
/// all of those of one that could be read, and none of one that could not.
pub proof fn crtcs_are_gathered_encoder_by_encoder(
    some: Seq<Option<Vec<u32>>>,
    more: Seq<Option<Vec<u32>>>,
    crtcs: Vec<u32>,
)
    ensures
        crtcs_of(Seq::empty()).len() == 0,
        crtcs_of(seq![Some(crtcs)]) == crtcs@,
        crtcs_of(seq![None::<Vec<u32>>]).len() == 0,
        crtcs_of(some + more) == crtcs_of(some) + crtcs_of(more),
    decreases more.len(),
{
    reveal_with_fuel(crtcs_of, 2);
    assert(seq![Some(crtcs)].drop_last() =~= Seq::empty());
    assert(seq![None::<Vec<u32>>].drop_last() =~= Seq::empty());
    assert(crtcs_of(seq![Some(crtcs)]) =~= crtcs@);
    if more.len() == 0 {
        assert(some + more =~= some);
        assert(crtcs_of(some) + crtcs_of(more) =~= crtcs_of(some));
    } else {
        assert((some + more).drop_last() =~= some + more.drop_last());
        crtcs_are_gathered_encoder_by_encoder(some, more.drop_last(), crtcs);
        assert(crtcs_of(some + more) =~= crtcs_of(some) + crtcs_of(more));
    }
}

/// A CRTC can be used exactly where an encoder that could be read lists it, at
/// whatever place.
pub proof fn crtcs_are_those_that_an_encoder_lists(encoders: Seq<Option<Vec<u32>>>, crtc: u32)
    ensures
        crtcs_of(encoders).contains(crtc) <==> exists|i: int, j: int|
            {
                &&& 0 <= i < encoders.len()
                &&& encoders[i] is Some
                &&& 0 <= j < encoders[i]->0@.len()
                &&& #[trigger] encoders[i]->0@[j] == crtc
            },
    decreases encoders.len(),
{
    if encoders.len() > 0 {
        let rest = encoders.drop_last();
        let last = encoders.len() - 1;
        crtcs_are_those_that_an_encoder_lists(rest, crtc);
        let all = crtcs_of(encoders);
        if all.contains(crtc) {
            let k = all.index_of(crtc);
            if k < crtcs_of(rest).len() {
                assert(crtcs_of(rest)[k] == crtc);
                let (i, j) = choose|i: int, j: int|
                    {
                        &&& 0 <= i < rest.len()
                        &&& rest[i] is Some
                        &&& 0 <= j < rest[i]->0@.len()
                        &&& #[trigger] rest[i]->0@[j] == crtc
                    };
                assert(encoders[i]->0@[j] == crtc);
            } else {
                let j = k - crtcs_of(rest).len();
                assert(encoders[last]->0@[j] == crtc);
            }
        }
        if exists|i: int, j: int|
            {
                &&& 0 <= i < encoders.len()
                &&& encoders[i] is Some
                &&& 0 <= j < encoders[i]->0@.len()
                &&& #[trigger] encoders[i]->0@[j] == crtc
            } {
            let (i, j) = choose|i: int, j: int|
                {
                    &&& 0 <= i < encoders.len()
                    &&& encoders[i] is Some
                    &&& 0 <= j < encoders[i]->0@.len()
                    &&& #[trigger] encoders[i]->0@[j] == crtc
                };
            if i < last {
                assert(rest[i]->0@[j] == crtc);
                let k = crtcs_of(rest).index_of(crtc);
                assert(all[k] == crtc);
            } else {
                assert(all[crtcs_of(rest).len() + j] == crtc);
            }
        }
    }
}

/// The CRTC in use is kept wherever it is listed, at whatever place; else the first
/// that is listed is taken.
pub proof fn the_crtc_in_use_is_kept(compatible: Seq<u32>, before: Option<u32>, place: int)
    ensures
        0 <= place < compatible.len() && before == Some(compatible[place]) ==> chosen_crtc(
            compatible,
            before,
        ) == Some(compatible[place]),
        compatible.len() > 0 && (forall|j: int|
            0 <= j < compatible.len() ==> before != Some(#[trigger] compatible[j]))
            ==> chosen_crtc(compatible, before) == Some(compatible[0]),
        compatible.len() == 0 ==> chosen_crtc(compatible, before) is None,
{
    if before is Some && compatible.contains(before->0) {
        let j = compatible.index_of(before->0);
        assert(before == Some(compatible[j]));
    }
}

/// The first mode whose type has the digit of preferred modes is used, and the first
/// of all where none has it.
pub proof fn the_first_preferred_mode_is_used(modes: Seq<Mode>, place: int)
    ensures
        0 <= place < modes.len() && (modes[place].mode_type / 8) % 2 == 1 && (forall|j: int|
            0 <= j < place ==> ((#[trigger] modes[j]).mode_type / 8) % 2 == 0) ==> chosen_mode(
            modes,
        ) == Some(modes[place]),
        modes.len() > 0 && (forall|j: int|
            0 <= j < modes.len() ==> ((#[trigger] modes[j]).mode_type / 8) % 2 == 0)
            ==> chosen_mode(modes) == Some(modes[0]),
        modes.len() == 0 ==> chosen_mode(modes) is None,
{
    let wanted = |m: Mode| m.preferred();
    search::first_where_is_first(modes, wanted);
    assert forall|j: int| 0 <= j < modes.len() implies wanted(#[trigger] modes[j]) == ((
    modes[j].mode_type / 8) % 2 == 1) by {
        mode::the_fourth_digit_of_a_type_marks_preferred_modes(modes[j]);
    }
    if let Some(i) = search::first_where(modes, wanted) {
        assert(wanted(modes[i]));
    }
}

/// The type of a plane is that of the first property with the name of types whose
/// value is that of a type: 0 for overlay planes, 1 for primary ones, 2 for cursors.
/// A plane without such a property has none.
pub proof fn the_first_known_type_counts(properties: Seq<NamedProperty>, place: int)
    ensures
        ({
            let says = |i: int|
                {
                    &&& properties[i].name is Some
                    &&& properties[i].name->0@ == "type"@
                    &&& properties[i].value <= 2
                };
            let value = properties[place].value;
            &&& 0 <= place < properties.len() && says(place) && (forall|j: int|
                0 <= j < place ==> !#[trigger] says(j)) ==> type_among(properties) == Some(
                if value == 0 {
                    PlaneType::Overlay
                } else if value == 1 {
                    PlaneType::Primary
                } else {
                    PlaneType::Cursor
                },
            )
            &&& (forall|j: int| 0 <= j < properties.len() ==> !#[trigger] says(j)) ==> type_among(
                properties,
            ) is None
        }),
{
    let says = |i: int|
        {
            &&& properties[i].name is Some
            &&& properties[i].name->0@ == "type"@
            &&& properties[i].value <= 2
        };
    let wanted = |p: NamedProperty| said_type(p) is Some;
    search::first_where_is_first(properties, wanted);
    assert forall|j: int| 0 <= j < properties.len() implies #[trigger] says(j) == wanted(
        properties[j],
    ) by {}
    if let Some(i) = search::first_where(properties, wanted) {
        assert(wanted(properties[i]));
        assert(says(i));
    }
}

/// The primary plane of a CRTC is picked: where a plane could be read together with its
/// properties, is a primary plane by them, and lists the CRTC at whatever place,
/// the first such plane is; and none is picked only where there is no such plane.
pub proof fn the_first_primary_plane_is_picked(
    planes: Seq<Option<PlaneInfo>>,
    crtc: u32,
    r: Result<u32, SelectError>,
    place: int,
)
    requires
        match search::first_where(planes, |p: Option<PlaneInfo>| is_primary(p, crtc)) {
            Some(i) => r == Ok::<u32, SelectError>(planes[i]->0.handle),
            None => r == Err::<u32, SelectError>(SelectError::NoPrimaryPlane),
        },
    ensures
        ({
            let fits = |i: int|
                {
                    &&& planes[i] is Some
                    &&& planes[i]->0.properties is Some
                    &&& type_among(planes[i]->0.properties->0@) == Some(PlaneType::Primary)
                    &&& exists|k: int|
                        0 <= k < planes[i]->0.crtcs@.len() && #[trigger] planes[i]->0.crtcs@[k]
                            == crtc
                };
            &&& 0 <= place < planes.len() && fits(place) && (forall|j: int|
                0 <= j < place ==> !#[trigger] fits(j)) ==> r == Ok::<u32, SelectError>(
                planes[place]->0.handle,
            )
            &&& r is Err <==> forall|j: int| 0 <= j < planes.len() ==> !#[trigger] fits(j)
            &&& r is Err ==> r->Err_0 is NoPrimaryPlane
        }),
{
    let fits = |i: int|
        {
            &&& planes[i] is Some
            &&& planes[i]->0.properties is Some
            &&& type_among(planes[i]->0.properties->0@) == Some(PlaneType::Primary)
            &&& exists|k: int|
                0 <= k < planes[i]->0.crtcs@.len() && #[trigger] planes[i]->0.crtcs@[k] == crtc
        };
    let wanted = |p: Option<PlaneInfo>| is_primary(p, crtc);
    search::first_where_is_first(planes, wanted);
    assert forall|j: int| 0 <= j < planes.len() implies #[trigger] fits(j) == wanted(
        planes[j],
    ) by {
        if wanted(planes[j]) {
            let k = planes[j]->0.crtcs@.index_of(crtc);
            assert(planes[j]->0.crtcs@[k] == crtc);
        }
    }
    if let Some(i) = search::first_where(planes, wanted) {
        assert(wanted(planes[i]));
        assert(fits(i));
    }
}

/// What is told of a connector without a mode ends with the name of its interface.
pub proof fn the_interface_without_a_mode_is_named(interface: String)
    ensures
        ({
            let told = (SelectError::NoMode { interface }).text();
            let start = told.len() - interface@.len();
            &&& told.take(start) == "Cannot find suitable mode for connector "@
            &&& told.skip(start) == interface@
        }),
{
    let told = (SelectError::NoMode { interface }).text();
    let start = told.len() - interface@.len();
    assert(told.take(start) =~= "Cannot find suitable mode for connector "@);
    assert(told.skip(start) =~= interface@);
}

} // verus!

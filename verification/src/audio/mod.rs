//! Audio endpoints: what one is, which one a query names, and what its properties mean.
//!
//! The identity of a device is its endpoint id, never its friendly name: names collide, are
//! localised and change, the id is stable.
use crate::text;
use vstd::prelude::*;

pub mod battery;
pub mod mic;

verus! {

/// Stable endpoint identity.
#[derive(Debug, Clone, PartialEq, Eq, Hash)]
pub struct DeviceId(pub String);

impl DeviceId {
    /// Whether two ids name the same endpoint.
    pub fn same(&self, other: &DeviceId) -> (r: bool)
        ensures
            r == (self.0@ == other.0@),
    {
        text::same_text(self.0.as_str(), other.0.as_str())
    }

    /// The same id again.
    pub fn copied(&self) -> (r: DeviceId)
        ensures
            r.0@ == self.0@,
    {
        DeviceId(self.0.clone())
    }
}

/// What an optional id names.
pub open spec fn id_view(id: Option<DeviceId>) -> Option<Seq<char>> {
    match id {
        Some(d) => Some(d.0@),
        None => None,
    }
}

/// Endpoint direction: playback or recording. The flyout shows both; the tray icon reflects the
/// default output only.
#[derive(Debug, Clone, Copy, PartialEq, Eq, Structural)]
pub enum Flow {
    Output,
    Input,
}

/// Endpoint form factor. A hint only: Windows cannot tell wireless earbuds from headphones, so the
/// icon chosen per device is authoritative.
#[derive(Debug, Clone, Copy, PartialEq, Eq, Structural)]
pub enum FormFactor {
    Speakers,
    Headphones,
    Headset,
    Microphone,
    Spdif,
    DigitalDisplay,
    Unknown,
}

/// An active endpoint.
#[derive(Debug, Clone)]
pub struct Device {
    pub id: DeviceId,
    pub friendly_name: String,
    /// Hint only, see [`FormFactor`].
    pub form_factor: FormFactor,
    /// The container id as an upper-case `{GUID}` text. It groups all functions of one physical
    /// device, and is how its Bluetooth battery is found (see [`battery`]).
    pub container_id: Option<String>,
}

/// The form factor that the endpoint property's number stands for.
pub open spec fn form_factor_of(code: u32) -> FormFactor {
    if code == 1 {
        FormFactor::Speakers
    } else if code == 3 {
        FormFactor::Headphones
    } else if code == 4 {
        FormFactor::Microphone
    } else if code == 5 {
        FormFactor::Headset
    } else if code == 8 {
        FormFactor::Spdif
    } else if code == 9 {
        FormFactor::DigitalDisplay
    } else {
        FormFactor::Unknown
    }
}

/// Reads the form-factor property's number.
pub fn form_factor_from_code(code: u32) -> (r: FormFactor)
    ensures
        r == form_factor_of(code),
{
    match code {
        1 => FormFactor::Speakers,
        3 => FormFactor::Headphones,
        4 => FormFactor::Microphone,
        5 => FormFactor::Headset,
        8 => FormFactor::Spdif,
        9 => FormFactor::DigitalDisplay,
        _ => FormFactor::Unknown,
    }
}

/// Puts a device together from the properties that could be read of it. A name that cannot be
/// read is shown as unknown, a container that is empty counts as none.
pub fn describe(
    id: String,
    friendly_name: Option<String>,
    form_factor: Option<u32>,
    container_id: Option<String>,
) -> (r: Device)
    ensures
        r.id.0@ == id@,
        r.friendly_name@ == (match friendly_name {
            Some(name) => name@,
            None => "(unknown)"@,
        }),
        r.form_factor == (match form_factor {
            Some(code) => form_factor_of(code),
            None => FormFactor::Unknown,
        }),
        match container_id {
            Some(c) => match r.container_id {
                Some(kept) => c@.len() > 0 && kept@ == c@,
                None => c@.len() == 0,
            },
            None => r.container_id is None,
        },
{
    let friendly_name = match friendly_name {
        Some(name) => name,
        None => "(unknown)".to_string(),
    };
    let form_factor = match form_factor {
        Some(code) => form_factor_from_code(code),
        None => FormFactor::Unknown,
    };
    let container_id = match container_id {
        Some(c) => if text::chars_of(c.as_str()).len() > 0 {
            Some(c)
        } else {
            None
        },
        None => None,
    };
    Device { id: DeviceId(id), friendly_name, form_factor, container_id }
}

/// The place of the first device with the given id.
pub fn position_of(devices: &[Device], id: &DeviceId) -> (r: Option<usize>)
    ensures
        match r {
            Some(i) => i < devices.len() && devices@[i as int].id.0@ == id.0@ && forall|j: int|
                0 <= j < i ==> (#[trigger] devices@[j]).id.0@ != id.0@,
            None => forall|j: int|
                0 <= j < devices.len() ==> (#[trigger] devices@[j]).id.0@ != id.0@,
        },
{
    let mut i: usize = 0;
    while i < devices.len()
        invariant
            i <= devices.len(),
            forall|j: int| 0 <= j < i ==> (#[trigger] devices@[j]).id.0@ != id.0@,
        decreases devices.len() - i,
    {
        if devices[i].id.same(id) {
            return Some(i);
        }
        i = i + 1;
    }
    None
}

/// Why a query names no device to switch to.
#[derive(Debug, Clone, PartialEq, Eq)]
pub enum QueryError {
    /// No device has that id, nor that text in its name.
    NoMatch,
    /// More than one name holds the text: their places, in order.
    Ambiguous(Vec<usize>),
}

/// Which of the given lower-case names hold the query: their places, in order.
pub open spec fn holding_names(names: Seq<Seq<char>>, query: Seq<char>, upto: int) -> Seq<int>
    decreases upto,
{
    if upto <= 0 {
        Seq::empty()
    } else if text::occurs_in(names[upto - 1], query) {
        holding_names(names, query, upto - 1).push(upto - 1)
    } else {
        holding_names(names, query, upto - 1)
    }
}

/// The names of the devices, in lower case.
pub open spec fn lowered_names(devices: Seq<Device>) -> Seq<Seq<char>> {
    devices.map_values(|d: Device| text::lowercase(d.friendly_name@))
}

/// What a choice among the places that hold a query must be.
pub open spec fn query_result(found: Seq<int>, r: Result<usize, QueryError>) -> bool {
    match r {
        Ok(i) => found == seq![i as int],
        Err(QueryError::NoMatch) => found.len() == 0,
        Err(QueryError::Ambiguous(places)) => found.len() > 1 && places@.map_values(
            |p: usize| p as int,
        ) == found,
    }
}

/// The places among lower-case names that a lower-case query picks out.
pub fn match_names(names: &Vec<String>, query: &str) -> (r: Result<usize, QueryError>)
    ensures
        query_result(
            holding_names(
                names@.map_values(|n: String| n@),
                query@,
                names@.len() as int,
            ),
            r,
        ),
{
    let mut found: Vec<usize> = Vec::new();
    let mut i: usize = 0;
    let ghost views = names@.map_values(|n: String| n@);
    while i < names.len()
        invariant
            i <= names.len(),
            views == names@.map_values(|n: String| n@),
            found@.map_values(|p: usize| p as int) == holding_names(views, query@, i as int),
        decreases names.len() - i,
    {
        proof {
            assert(views[i as int] == names@[i as int]@);
        }
        let ghost before = found@;
        if text::contains(names[i].as_str(), query) {
            found.push(i);
            proof {
                assert(found@.map_values(|p: usize| p as int) =~= before.map_values(
                    |p: usize| p as int,
                ).push(i as int));
            }
        }
        i = i + 1;
    }
    let ghost held = holding_names(views, query@, names@.len() as int);
    if found.len() == 0 {
        Err(QueryError::NoMatch)
    } else if found.len() == 1 {
        proof {
            assert(held[0] == found@[0] as int);
            assert(held =~= seq![found@[0] as int]);
        }
        Ok(found[0])
    } else {
        Err(QueryError::Ambiguous(found))
    }
}

/// Finds the device that a query names: the one whose id it is, or else the only one with that
/// text in its name, whatever the case.
pub fn find_device(devices: &[Device], query: &str) -> (r: Result<usize, QueryError>)
    ensures
        is_found(devices@, query@, r),
{
    let mut i: usize = 0;
    while i < devices.len()
        invariant
            i <= devices.len(),
            forall|j: int| 0 <= j < i ==> (#[trigger] devices@[j]).id.0@ != query@,
        decreases devices.len() - i,
    {
        if text::same_text(devices[i].id.0.as_str(), query) {
            return Ok(i);
        }
        i = i + 1;
    }
    let wanted = text::to_lowercase(query);
    let mut lowered: Vec<String> = Vec::new();
    let mut k: usize = 0;
    while k < devices.len()
        invariant
            k <= devices.len(),
            lowered@.len() == k,
            forall|j: int|
                0 <= j < k ==> (#[trigger] lowered@[j])@ == text::lowercase(
                    devices@[j].friendly_name@,
                ),
        decreases devices.len() - k,
    {
        lowered.push(text::to_lowercase(devices[k].friendly_name.as_str()));
        k = k + 1;
    }
    proof {
        assert(lowered@.map_values(|n: String| n@) =~= lowered_names(devices@));
    }
    let r = match_names(&lowered, wanted.as_str());
    proof {
        lemma_held_places_in_range(
            lowered_names(devices@),
            text::lowercase(query@),
            devices@.len() as int,
        );
        if let Ok(i) = r {
            let held = holding_names(
                lowered_names(devices@),
                text::lowercase(query@),
                devices@.len() as int,
            );
            assert(held[0] == i as int);
        }
    }
    r
}

proof fn lemma_held_places_in_range(names: Seq<Seq<char>>, query: Seq<char>, upto: int)
    requires
        0 <= upto,
    ensures
        forall|k: int|
            0 <= k < holding_names(names, query, upto).len() ==> 0 <= #[trigger] holding_names(
                names,
                query,
                upto,
            )[k] < upto,
    decreases upto,
{
    if upto > 0 {
        lemma_held_places_in_range(names, query, upto - 1);
        let less = holding_names(names, query, upto - 1);
        let all = holding_names(names, query, upto);
        assert forall|k: int| 0 <= k < all.len() implies 0 <= #[trigger] all[k] < upto by {
            if k < less.len() {
                assert(all[k] == less[k]);
            }
        }
    }
}

/// The system's numbers for form factors: one is speakers, three headphones, four a microphone, five a
/// headset, eight a digital output, nine a display, and any other unknown.
pub proof fn law_form_factors_have_their_numbers(code: u32)
    ensures
        form_factor_of(code) == (match code {
            1 => FormFactor::Speakers,
            3 => FormFactor::Headphones,
            4 => FormFactor::Microphone,
            5 => FormFactor::Headset,
            8 => FormFactor::Spdif,
            9 => FormFactor::DigitalDisplay,
            _ => FormFactor::Unknown,
        }),
{
}

/// A query picks out every name that holds it, and no other, in their order.
pub proof fn law_a_query_picks_out_every_name_that_holds_it(
    names: Seq<Seq<char>>,
    query: Seq<char>,
    upto: int,
    i: int,
)
    requires
        0 <= upto <= names.len(),
    ensures
        ({
            let held = holding_names(names, query, upto);
            &&& held.contains(i) <==> 0 <= i < upto && text::occurs_in(names[i], query)
            &&& forall|a: int, b: int| 0 <= a < b < held.len() ==> held[a] < held[b]
        }),
    decreases upto,
{
    let held = holding_names(names, query, upto);
    if upto > 0 {
        law_a_query_picks_out_every_name_that_holds_it(names, query, upto - 1, i);
        lemma_held_places_in_range(names, query, upto - 1);
        let less = holding_names(names, query, upto - 1);
        if text::occurs_in(names[upto - 1], query) {
            assert(held == less.push(upto - 1));
            assert(held[held.len() - 1] == upto - 1);
            if less.contains(i) {
                let k = choose|k: int| 0 <= k < less.len() && less[k] == i;
                assert(held[k] == i);
            }
            if held.contains(i) && i != upto - 1 {
                let k = choose|k: int| 0 <= k < held.len() && held[k] == i;
                assert(less[k] == i);
            }
        }
    }
}

/// Whether that is what a query finds among the devices.
pub open spec fn is_found(devices: Seq<Device>, query: Seq<char>, r: Result<usize, QueryError>) -> bool {
    &&& match r {
        Ok(i) => i < devices.len(),
        Err(_) => true,
    }
    &&& (exists|j: int| 0 <= j < devices.len() && (#[trigger] devices[j]).id.0@ == query) ==> (match r {
        Ok(i) => devices[i as int].id.0@ == query && forall|j: int|
            0 <= j < i ==> (#[trigger] devices[j]).id.0@ != query,
        Err(_) => false,
    })
    &&& (forall|j: int| 0 <= j < devices.len() ==> (#[trigger] devices[j]).id.0@ != query)
        ==> query_result(
        holding_names(lowered_names(devices), text::lowercase(query), devices.len() as int),
        r,
    )
}

/// A query finds the device whose id it is, whatever the names hold. Otherwise it finds the one device whose
/// name holds it, both in lower case, and none where no name does or more than one; which ones those are is
/// told, all of them and in order.
pub proof fn law_a_query_finds_one_device(
    devices: Seq<Device>,
    query: Seq<char>,
    r: Result<usize, QueryError>,
    i: int,
)
    requires
        is_found(devices, query, r),
        0 <= i < devices.len(),
    ensures
        devices[i].id.0@ == query && (forall|j: int|
            0 <= j < i ==> (#[trigger] devices[j]).id.0@ != query) ==> r == Ok::<usize, QueryError>(
            i as usize,
        ),
        (forall|j: int| 0 <= j < devices.len() ==> (#[trigger] devices[j]).id.0@ != query) ==> {
            let holds = |k: int|
                text::occurs_in(text::lowercase(devices[k].friendly_name@), text::lowercase(query));
            match r {
                Ok(k) => holds(i) <==> i == k,
                Err(QueryError::NoMatch) => !holds(i),
                Err(QueryError::Ambiguous(places)) => (holds(i) <==> exists|p: int|
                    0 <= p < places@.len() && #[trigger] places@[p] == i) && places@.len() > 1 && forall|
                    a: int,
                    b: int,
                |
                    0 <= a < b < places@.len() ==> #[trigger] places@[a] < #[trigger] places@[b],
            }
        },
{
    let names = lowered_names(devices);
    let wanted = text::lowercase(query);
    let n = devices.len() as int;
    let held = holding_names(names, wanted, n);
    if forall|j: int| 0 <= j < devices.len() ==> (#[trigger] devices[j]).id.0@ != query {
        law_a_query_picks_out_every_name_that_holds_it(names, wanted, n, i);
        assert(names[i] == text::lowercase(devices[i].friendly_name@));
        match r {
            Ok(k) => {
                assert(held[0] == k as int);
                if held.contains(i) {
                    let p = choose|p: int| 0 <= p < held.len() && held[p] == i;
                    assert(p == 0);
                }
            },
            Err(QueryError::NoMatch) => {},
            Err(QueryError::Ambiguous(places)) => {
                let seen = places@.map_values(|p: usize| p as int);
                assert(seen == held);
                assert forall|a: int, b: int| 0 <= a < b < places@.len() implies #[trigger] places@[a]
                    < #[trigger] places@[b] by {
                    assert(held[a] == places@[a] as int && held[b] == places@[b] as int);
                }
                if held.contains(i) {
                    let p = choose|p: int| 0 <= p < held.len() && held[p] == i;
                    assert(places@[p] == i);
                }
                if exists|p: int| 0 <= p < places@.len() && #[trigger] places@[p] == i {
                    let p = choose|p: int| 0 <= p < places@.len() && #[trigger] places@[p] == i;
                    assert(held[p] == i);
                }
            },
        }
    }
}

} // verus!

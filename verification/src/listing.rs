//! What the program tells of the endpoints when it is asked to list them.
use crate::audio::{position_of, Device, DeviceId, FormFactor};
use crate::text;
use vstd::prelude::*;

verus! {

/// The word for a form factor.
pub open spec fn form_word(form: FormFactor) -> Seq<char> {
    match form {
        FormFactor::Speakers => "Speakers"@,
        FormFactor::Headphones => "Headphones"@,
        FormFactor::Headset => "Headset"@,
        FormFactor::Microphone => "Microphone"@,
        FormFactor::Spdif => "Spdif"@,
        FormFactor::DigitalDisplay => "DigitalDisplay"@,
        FormFactor::Unknown => "Unknown"@,
    }
}

/// `n` spaces.
pub open spec fn spaces(n: int) -> Seq<char> {
    Seq::new(
        if n > 0 {
            n as nat
        } else {
            0
        },
        |i: int| ' ',
    )
}

fn push_spaces(out: &mut String, n: usize)
    ensures
        final(out)@ == old(out)@ + spaces(n as int),
{
    let ghost before = out@;
    let mut i: usize = 0;
    proof {
        assert(before + spaces(0) =~= before);
    }
    while i < n
        invariant
            i <= n,
            out@ == before + spaces(i as int),
        decreases n - i,
    {
        out.push(' ');
        i = i + 1;
        proof {
            assert(out@ =~= before + spaces(i as int));
        }
    }
}

/// What a device with the given id is called: by the name of the first with that id, or by the id
/// where there is none.
pub open spec fn called(devices: Seq<Device>, id: Seq<char>) -> Seq<char>
    decreases devices.len(),
{
    if devices.len() == 0 {
        id
    } else if devices[0].id.0@ == id {
        devices[0].friendly_name@
    } else {
        called(devices.skip(1), id)
    }
}

proof fn lemma_called(devices: Seq<Device>, id: Seq<char>, i: int)
    requires
        0 <= i <= devices.len(),
        forall|j: int| 0 <= j < i ==> (#[trigger] devices[j]).id.0@ != id,
        i < devices.len() ==> devices[i].id.0@ == id,
    ensures
        called(devices, id) == (if i < devices.len() {
            devices[i].friendly_name@
        } else {
            id
        }),
    decreases devices.len(),
{
    if i > 0 {
        assert(devices[0].id.0@ != id);
        let rest = devices.skip(1);
        assert(forall|j: int| 0 <= j < rest.len() ==> rest[j] == devices[j + 1]);
        lemma_called(rest, id, i - 1);
    }
}

/// The name of the device with the given id, or the id where no device has it.
pub fn name_of(devices: &[Device], id: &DeviceId) -> (r: String)
    ensures
        r@ == called(devices@, id.0@),
{
    match position_of(devices, id) {
        Some(i) => {
            proof {
                lemma_called(devices@, id.0@, i as int);
            }
            devices[i].friendly_name.clone()
        },
        None => {
            proof {
                lemma_called(devices@, id.0@, devices@.len() as int);
            }
            id.0.clone()
        },
    }
}

/// The line that tells the default device of a role.
pub open spec fn role_text(role: Seq<char>, name: Option<Seq<char>>) -> Seq<char> {
    "  "@ + role + spaces(16 - role.len()) + " "@ + (match name {
        Some(n) => n,
        None => "(none)"@,
    })
}

/// The line that tells the default device of a role, the names of all roles set in one column.
pub fn role_line(role: &str, default: &Option<DeviceId>, devices: &[Device]) -> (r: String)
    ensures
        r@ == role_text(
            role@,
            match *default {
                Some(id) => Some(called(devices@, id.0@)),
                None => None,
            },
        ),
{
    let mut out = String::new();
    out.append("  ");
    out.append(role);
    let n: usize = text::chars_of(role).len();
    push_spaces(
        &mut out,
        if n < 16 {
            16 - n
        } else {
            0
        },
    );
    out.append(" ");
    match default {
        Some(id) => out.append(name_of(devices, id).as_str()),
        None => out.append("(none)"),
    }
    proof {
        assert(n >= 16 ==> spaces(0) =~= spaces(16 - n));
        assert(out@ =~= role_text(
            role@,
            match *default {
                Some(id) => Some(called(devices@, id.0@)),
                None => None,
            },
        ));
    }
    out
}

/// A level in percent, three digits wide, or a sign that it could not be read.
pub open spec fn level_text(percent: Option<u32>) -> Seq<char> {
    match percent {
        Some(p) => spaces(3 - text::decimal(p as nat).len()) + text::decimal(p as nat) + "%"@,
        None => "  ? "@,
    }
}

/// The line that tells of a device.
pub open spec fn device_text(d: Device, is_default: bool, percent: Option<u32>, muted: bool) -> Seq<
    char,
> {
    "  "@ + (if is_default {
        "*"@
    } else {
        " "@
    }) + " ["@ + form_word(d.form_factor) + "] "@ + level_text(percent) + (if muted {
        " muted"@
    } else {
        ""@
    }) + "  "@ + d.friendly_name@
}

fn push_level(out: &mut String, percent: Option<u32>)
    ensures
        final(out)@ == old(out)@ + level_text(percent),
{
    let ghost before = out@;
    match percent {
        Some(p) => {
            let mut digits = String::new();
            text::push_decimal(&mut digits, p as u64);
            let n: usize = text::chars_of(digits.as_str()).len();
            proof {
                assert(digits@ =~= text::decimal(p as nat));
            }
            push_spaces(
                out,
                if n < 3 {
                    3 - n
                } else {
                    0
                },
            );
            out.append(digits.as_str());
            out.append("%");
            proof {
                assert(n >= 3 ==> spaces(0) =~= spaces(3 - n));
                assert(out@ =~= before + level_text(percent));
            }
        },
        None => {
            out.append("  ? ");
        },
    }
}

/// The line that tells of a device: whether it is the default, what it is, how loud, and its name.
pub fn device_line(d: &Device, default: &Option<DeviceId>, percent: Option<u32>, muted: bool) -> (r:
    String)
    ensures
        r@ == device_text(
            *d,
            match *default {
                Some(id) => id.0@ == d.id.0@,
                None => false,
            },
            percent,
            muted,
        ),
{
    let is_default = match default {
        Some(id) => id.same(&d.id),
        None => false,
    };
    let mut out = String::new();
    out.append("  ");
    out.append(
        if is_default {
            "*"
        } else {
            " "
        },
    );
    out.append(" [");
    out.append(
        match d.form_factor {
            FormFactor::Speakers => "Speakers",
            FormFactor::Headphones => "Headphones",
            FormFactor::Headset => "Headset",
            FormFactor::Microphone => "Microphone",
            FormFactor::Spdif => "Spdif",
            FormFactor::DigitalDisplay => "DigitalDisplay",
            FormFactor::Unknown => "Unknown",
        },
    );
    out.append("] ");
    push_level(&mut out, percent);
    out.append(
        if muted {
            " muted"
        } else {
            ""
        },
    );
    out.append("  ");
    out.append(d.friendly_name.as_str());
    proof {
        assert(out@ =~= device_text(*d, is_default, percent, muted));
    }
    out
}

/// An id is told by the name of the first device that has it, and by itself where none has.
pub proof fn law_an_id_is_told_by_its_devices_name(devices: Seq<Device>, id: Seq<char>, i: int)
    ensures
        0 <= i < devices.len() && devices[i].id.0@ == id && (forall|j: int|
            0 <= j < i ==> (#[trigger] devices[j]).id.0@ != id) ==> called(devices, id)
            == devices[i].friendly_name@,
        (forall|j: int| 0 <= j < devices.len() ==> (#[trigger] devices[j]).id.0@ != id) ==> called(
            devices,
            id,
        ) == id,
{
    if 0 <= i < devices.len() && devices[i].id.0@ == id && (forall|j: int|
        0 <= j < i ==> (#[trigger] devices[j]).id.0@ != id) {
        lemma_called(devices, id, i);
    }
    if forall|j: int| 0 <= j < devices.len() ==> (#[trigger] devices[j]).id.0@ != id {
        lemma_called(devices, id, devices.len() as int);
    }
}

/// The names of all roles start in one column, where the words for the roles are no longer than sixteen
/// characters; behind a longer one there is a space.
pub proof fn law_roles_are_set_in_columns(role: Seq<char>, name: Option<Seq<char>>)
    ensures
        ({
            let t = role_text(role, name);
            let column = if role.len() <= 16 {
                19int
            } else {
                role.len() as int + 3
            };
            &&& t.subrange(2, 2 + role.len() as int) == role
            &&& t.skip(column) == (match name {
                Some(n) => n,
                None => "(none)"@,
            })
            &&& forall|k: int| (0 <= k < 2 || 2 + role.len() <= k < column) ==> #[trigger] t[k] == ' '
        }),
{
    reveal_strlit("  ");
    reveal_strlit(" ");
    let t = role_text(role, name);
    let column = if role.len() <= 16 {
        19int
    } else {
        role.len() as int + 3
    };
    assert(t.subrange(2, 2 + role.len() as int) =~= role);
    match name {
        Some(n) => assert(t.skip(column) =~= n),
        None => assert(t.skip(column) =~= "(none)"@),
    }
}

/// A device's line has a star exactly where it is the default, tells that it is muted exactly where it is,
/// and ends in its name. Its level is told in percent, set three wide, or with a question mark where it is
/// not known.
pub proof fn law_a_devices_line_tells_what_it_is(
    d: Device,
    is_default: bool,
    percent: Option<u32>,
    muted: bool,
)
    ensures
        ({
            let t = device_text(d, is_default, percent, muted);
            let n = t.len() - d.friendly_name@.len();
            &&& t[2] == (if is_default {
                '*'
            } else {
                ' '
            })
            &&& n >= 0
            &&& t.skip(n) == d.friendly_name@
            &&& n == 7 + form_word(d.form_factor).len() + level_text(percent).len() + (if muted {
                8int
            } else {
                2
            })
            &&& t.subrange(5, 5 + form_word(d.form_factor).len() as int) == form_word(d.form_factor)
        }),
        percent matches Some(p) ==> {
            let l = level_text(percent);
            &&& l.len() >= 4
            &&& l.last() == '%'
            &&& exists|k: int|
                0 <= k < l.len() && text::number(#[trigger] l.subrange(k, l.len() - 1)) == Some(p as int)
                    && forall|j: int| 0 <= j < k ==> l[j] == ' '
        },
        level_text(None) == "  ? "@,
{
    reveal_strlit("  ");
    reveal_strlit(" ");
    reveal_strlit("*");
    reveal_strlit(" [");
    reveal_strlit("] ");
    reveal_strlit(" muted");
    reveal_strlit("");
    reveal_strlit("%");
    let t = device_text(d, is_default, percent, muted);
    let n = t.len() - d.friendly_name@.len();
    assert(t.skip(n) =~= d.friendly_name@);
    assert(t.subrange(5, 5 + form_word(d.form_factor).len() as int) =~= form_word(d.form_factor));
    if let Some(p) = percent {
        let l = level_text(percent);
        let digits = text::decimal(p as nat);
        let k = l.len() - 1 - digits.len();
        text::law_a_number_reads_back(p as nat);
        assert(l.subrange(k, l.len() - 1) =~= digits);
    }
}

/// No two form factors go by the same word, and each goes by its own.
pub proof fn law_form_factors_have_their_words(a: FormFactor, b: FormFactor)
    requires
        form_word(a) == form_word(b),
    ensures
        a == b,
        form_word(FormFactor::Speakers) == "Speakers"@,
        form_word(FormFactor::Headphones) == "Headphones"@,
        form_word(FormFactor::Headset) == "Headset"@,
        form_word(FormFactor::Microphone) == "Microphone"@,
{
    reveal_strlit("Speakers");
    reveal_strlit("Headphones");
    reveal_strlit("Headset");
    reveal_strlit("Microphone");
    reveal_strlit("Spdif");
    reveal_strlit("DigitalDisplay");
    reveal_strlit("Unknown");
    assert("Headset"@ != "Unknown"@) by {
        assert("Headset"@[0] == 'H' && "Unknown"@[0] == 'U');
    }
    assert("Headphones"@ != "Microphone"@) by {
        assert("Headphones"@[0] == 'H' && "Microphone"@[0] == 'M');
    }
    let (x, y) = (form_word(a), form_word(b));
    assert(x.len() == y.len());
}

} // verus!

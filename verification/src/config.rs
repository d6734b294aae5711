//! What the user chose: an icon per device, and how the music half of the app behaves.
//!
//! Icons are kept by the endpoint id, never by the friendly name.
use crate::audio::Device;
use crate::icons::{self, default_icon, IconId};
use crate::text;
use vstd::prelude::*;

verus! {

/// The icon chosen for one device.
#[derive(Debug, Clone)]
pub struct IconChoice {
    pub id: String,
    pub icon: IconId,
}

/// The configuration.
#[derive(Debug)]
pub struct Config {
    /// The icons chosen, at most one for each endpoint id.
    pub icons: Vec<IconChoice>,
    /// Following the music player.
    pub music: Music,
}

/// Following the music player, and drawing it into the taskbar. On by default: nothing of it shows
/// until there is a session of the player to follow.
#[derive(Debug)]
pub struct Music {
    /// Follow the player at all; `false` turns the whole feature off, progress bar included.
    pub enabled: bool,
    /// Draw the strip into the taskbar button of this name. Empty means no strip; the feed and the
    /// progress bar still work.
    pub tile: String,
    /// Follow the session with this app id instead of guessing it.
    pub app_id: Option<String>,
}

impl Default for Music {
    fn default() -> (r: Self)
        ensures
            r.enabled,
            r.tile@ == "YouTube Music"@,
            r.app_id is None,
    {
        Music { enabled: true, tile: "YouTube Music".to_string(), app_id: None }
    }
}

/// The icon that `icons` holds for an id: that of the first entry for it.
pub open spec fn chosen(icons: Seq<IconChoice>, id: Seq<char>) -> Option<IconId>
    decreases icons.len(),
{
    if icons.len() == 0 {
        None
    } else if icons[0].id@ == id {
        Some(icons[0].icon)
    } else {
        chosen(icons.skip(1), id)
    }
}

proof fn lemma_chosen_from(icons: Seq<IconChoice>, id: Seq<char>, i: int)
    requires
        0 <= i <= icons.len(),
        forall|j: int| 0 <= j < i ==> (#[trigger] icons[j]).id@ != id,
    ensures
        i < icons.len() && icons[i].id@ == id ==> chosen(icons, id) == Some(icons[i].icon),
        i == icons.len() ==> chosen(icons, id) is None,
    decreases i,
{
    if i > 0 {
        assert(icons[0].id@ != id);
        let rest = icons.skip(1);
        assert forall|j: int| 0 <= j < i - 1 implies (#[trigger] rest[j]).id@ != id by {
            assert(rest[j] == icons[j + 1]);
        }
        lemma_chosen_from(rest, id, i - 1);
        if i < icons.len() {
            assert(rest[i - 1] == icons[i]);
        }
    }
}

proof fn lemma_chosen_after_update(icons: Seq<IconChoice>, i: int, entry: IconChoice, id: Seq<char>)
    requires
        0 <= i < icons.len(),
        icons[i].id@ == entry.id@,
        entry.id@ != id,
    ensures
        chosen(icons.update(i, entry), id) == chosen(icons, id),
    decreases icons.len(),
{
    let new = icons.update(i, entry);
    if i > 0 {
        lemma_chosen_after_update(icons.skip(1), i - 1, entry, id);
        assert(new.skip(1) =~= icons.skip(1).update(i - 1, entry));
    } else {
        assert(new.skip(1) =~= icons.skip(1));
    }
}

proof fn lemma_chosen_after_push(icons: Seq<IconChoice>, entry: IconChoice, id: Seq<char>)
    requires
        entry.id@ != id,
    ensures
        chosen(icons.push(entry), id) == chosen(icons, id),
    decreases icons.len(),
{
    let new = icons.push(entry);
    if icons.len() > 0 {
        lemma_chosen_after_push(icons.skip(1), entry, id);
        assert(new.skip(1) =~= icons.skip(1).push(entry));
    } else {
        assert(new.skip(1) =~= Seq::empty());
        assert(chosen(new.skip(1), id) is None);
    }
}

impl Default for Config {
    fn default() -> (r: Self)
        ensures
            r.wf(),
            r.icons@.len() == 0,
            r.music.enabled,
            r.music.tile@ == "YouTube Music"@,
            r.music.app_id is None,
    {
        Config { icons: Vec::new(), music: Music::default() }
    }
}

impl Config {
    /// No id has two icons.
    pub open spec fn wf(&self) -> bool {
        forall|i: int, j: int|
            0 <= i < j < self.icons@.len() ==> (#[trigger] self.icons@[i]).id@ != (
            #[trigger] self.icons@[j]).id@
    }

    /// The user's icon for an id.
    pub open spec fn choice(&self, id: Seq<char>) -> Option<IconId> {
        chosen(self.icons@, id)
    }

    /// The icon to draw for a device: the user's choice, or else the one it starts with.
    pub open spec fn drawn_icon(&self, device: Device) -> IconId {
        match self.choice(device.id.0@) {
            Some(icon) => icon,
            None => icons::starting_icon(device.form_factor, text::lowercase(device.friendly_name@)),
        }
    }

    /// The user's icon for a device, if they chose one.
    pub fn icon_for(&self, device_id: &str) -> (r: Option<IconId>)
        ensures
            r == self.choice(device_id@),
    {
        let mut i: usize = 0;
        while i < self.icons.len()
            invariant
                i <= self.icons@.len(),
                forall|j: int| 0 <= j < i ==> (#[trigger] self.icons@[j]).id@ != device_id@,
            decreases self.icons@.len() - i,
        {
            if text::same_text(self.icons[i].id.as_str(), device_id) {
                proof {
                    lemma_chosen_from(self.icons@, device_id@, i as int);
                }
                return Some(self.icons[i].icon);
            }
            i = i + 1;
        }
        proof {
            lemma_chosen_from(self.icons@, device_id@, i as int);
        }
        None
    }

    /// The icon to draw for a device: the user's choice if there is one, or else the one it starts
    /// with. One place for it, because the tray icon, the strip and the flyout have to agree.
    pub fn icon_of(&self, device: &Device) -> (r: IconId)
        ensures
            r == self.drawn_icon(*device),
    {
        match self.icon_for(device.id.0.as_str()) {
            Some(icon) => icon,
            None => default_icon(device.form_factor, device.friendly_name.as_str()),
        }
    }

    /// Chooses an icon for a device.
    pub fn set_icon(&mut self, device_id: String, icon: IconId)
        ensures
            final(self).choice(device_id@) == Some(icon),
            forall|id: Seq<char>|
                id != device_id@ ==> #[trigger] final(self).choice(id) == old(self).choice(id),
            final(self).music == old(self).music,
            old(self).wf() ==> final(self).wf(),
    {
        let mut i: usize = 0;
        while i < self.icons.len()
            invariant
                i <= self.icons@.len(),
                *self == *old(self),
                forall|j: int| 0 <= j < i ==> (#[trigger] self.icons@[j]).id@ != device_id@,
            decreases self.icons@.len() - i,
        {
            if text::same_text(self.icons[i].id.as_str(), device_id.as_str()) {
                let ghost before = self.icons@;
                let entry = IconChoice { id: device_id, icon };
                self.icons.set(i, entry);
                proof {
                    assert(self.icons@ == before.update(i as int, entry));
                    lemma_chosen_from(self.icons@, device_id@, i as int);
                    assert forall|id: Seq<char>| id != device_id@ implies #[trigger] self.choice(id)
                        == old(self).choice(id) by {
                        lemma_chosen_after_update(before, i as int, entry, id);
                    }
                }
                return;
            }
            i = i + 1;
        }
        let ghost before = self.icons@;
        let entry = IconChoice { id: device_id, icon };
        self.icons.push(entry);
        proof {
            assert(self.icons@ == before.push(entry));
            lemma_chosen_from(self.icons@, device_id@, i as int);
            assert forall|id: Seq<char>| id != device_id@ implies #[trigger] self.choice(id) == old(
                self,
            ).choice(id) by {
                lemma_chosen_after_push(before, entry, id);
            }
        }
    }
}

/// A device is drawn with the icon chosen for it, whatever it is called and whatever its form
/// factor says.
pub proof fn law_the_users_choice_wins(config: Config, device: Device, icon: IconId)
    requires
        config.choice(device.id.0@) == Some(icon),
    ensures
        config.drawn_icon(device) == icon,
{
}

/// Two devices with the same id, name and form factor are drawn alike: the icon of a device does
/// not depend on which surface asks.
pub proof fn law_every_surface_draws_the_same_icon(config: Config, a: Device, b: Device)
    requires
        a.id.0@ == b.id.0@,
        a.friendly_name@ == b.friendly_name@,
        a.form_factor == b.form_factor,
    ensures
        config.drawn_icon(a) == config.drawn_icon(b),
{
}

/// The icon chosen for an id is that of the first entry for it, and there is none exactly where there is no
/// entry; ids are told apart letter by letter.
pub proof fn law_the_first_entry_counts(icons: Seq<IconChoice>, id: Seq<char>, i: int)
    ensures
        0 <= i < icons.len() && icons[i].id@ == id && (forall|j: int|
            0 <= j < i ==> (#[trigger] icons[j]).id@ != id) ==> chosen(icons, id) == Some(icons[i].icon),
        (forall|j: int| 0 <= j < icons.len() ==> (#[trigger] icons[j]).id@ != id) ==> chosen(icons, id)
            is None,
{
    if 0 <= i < icons.len() && (forall|j: int| 0 <= j < i ==> (#[trigger] icons[j]).id@ != id) {
        lemma_chosen_from(icons, id, i);
    }
    if forall|j: int| 0 <= j < icons.len() ==> (#[trigger] icons[j]).id@ != id {
        lemma_chosen_from(icons, id, icons.len() as int);
    }
}

/// A device that no icon was chosen for starts with that of its form factor, unless its name hints at
/// earbuds; and the choice for another device makes no difference to it.
pub proof fn law_an_unchosen_device_keeps_its_own_icon(a: Config, b: Config, device: Device)
    requires
        a.choice(device.id.0@) is None,
        b.choice(device.id.0@) is None,
    ensures
        a.drawn_icon(device) == b.drawn_icon(device),
        a.drawn_icon(device) == icons::starting_icon(
            device.form_factor,
            text::lowercase(device.friendly_name@),
        ),
{
}

} // verus!

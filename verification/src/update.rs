//! Updates: the version that waits for a restart, where its taskbar component waits, and which
//! release it came from.
use crate::text;
use self_update::update::{Release, ReleaseAsset};
use vstd::prelude::*;

verus! {

/// Whose releases are looked at.
pub const REPO_OWNER: &'static str = "michelsalib";

pub const REPO_NAME: &'static str = "audio-tray";

pub const BIN_NAME: &'static str = "audio-tray";

/// What the release's asset is named for.
pub const TARGET: &'static str = "x86_64-pc-windows-msvc";

/// The taskbar component, which travels with the program.
pub const TAP_DLL: &'static str = "audio_tray_tap.dll";

/// What is known of updates.
#[derive(Debug)]
pub struct Updates {
    /// The version on disk, once one newer than the running one is.
    pub pending: Option<String>,
}

/// The text of an optional string.
pub open spec fn text_view(s: Option<String>) -> Option<Seq<char>> {
    match s {
        Some(t) => Some(t@),
        None => None,
    }
}

impl Updates {
    /// No update is staged.
    pub fn new() -> (r: Updates)
        ensures
            r.pending is None,
    {
        Updates { pending: None }
    }
}

/// The version that a restart would upgrade to, if any.
pub fn pending_version(updates: &Updates) -> (r: Option<String>)
    ensures
        text_view(r) == text_view(updates.pending),
{
    match &updates.pending {
        Some(v) => Some(v.clone()),
        None => None,
    }
}

/// Records that a version was staged on disk.
pub fn set_pending_version(updates: &mut Updates, v: String)
    ensures
        text_view(final(updates).pending) == Some(v@),
{
    updates.pending = Some(v);
}

/// The name of the directory in which a version's component waits.
pub open spec fn staging_name(version: Seq<char>) -> Seq<char> {
    "audio-tray-tap-"@ + version
}

/// The directory in which a version's component waits. It is known by the version alone, because the
/// process that downloads it is never the one that installs it.
pub fn staging_dir(version: &str) -> (r: String)
    ensures
        r@ == staging_name(version@),
{
    let mut out = String::new();
    out.append("audio-tray-tap-");
    out.append(version);
    proof {
        assert(out@ =~= staging_name(version@));
    }
    out
}

/// Two versions never share a directory, so that no process installs the component of another.
pub proof fn law_versions_do_not_share_a_directory(a: Seq<char>, b: Seq<char>)
    requires
        staging_name(a) == staging_name(b),
    ensures
        a == b,
{
    let n = "audio-tray-tap-"@.len() as int;
    assert(staging_name(a).skip(n) =~= a);
    assert(staging_name(b).skip(n) =~= b);
}

/// One file of a release.
#[derive(Debug, Clone)]
pub struct Asset {
    pub name: String,
    pub download_url: String,
}

/// A release as it is listed.
#[derive(Debug)]
pub struct Published {
    pub version: String,
    pub assets: Vec<Asset>,
}

/// Why a release has no file to take the component from.
#[derive(Debug, Clone, Copy, PartialEq, Eq, Structural)]
pub enum NoAsset {
    /// There is no release of that version.
    NoRelease,
    /// The release has no file for the system.
    NoFile,
}

/// Whether two files are the same one.
pub open spec fn same_asset(a: Asset, b: Asset) -> bool {
    a.name@ == b.name@ && a.download_url@ == b.download_url@
}

/// Whether a file is the first of the given ones with the given text in its name.
pub open spec fn is_first_for(a: Asset, assets: Seq<Asset>, target: Seq<char>) -> bool {
    exists|i: int|
        #![trigger assets[i]]
        0 <= i < assets.len() && same_asset(a, assets[i]) && text::occurs_in(
            assets[i].name@,
            target,
        ) && forall|j: int|
            0 <= j < i ==> !text::occurs_in((#[trigger] assets[j]).name@, target)
}

/// Whether one of the files has the given text in its name.
pub open spec fn any_for(assets: Seq<Asset>, target: Seq<char>) -> bool {
    exists|i: int|
        0 <= i < assets.len() && text::occurs_in((#[trigger] assets[i]).name@, target)
}

/// What the choice of a file for a target is: the first that names it, where one does; and otherwise
/// one of the files, or none.
pub open spec fn may_choose(r: Option<Asset>, assets: Seq<Asset>, target: Seq<char>) -> bool {
    match r {
        Some(a) => if any_for(assets, target) {
            is_first_for(a, assets, target)
        } else {
            exists|i: int| 0 <= i < assets.len() && same_asset(a, #[trigger] assets[i])
        },
        None => !any_for(assets, target),
    }
}

/// `self_update::update::Release::asset_for`, without an identifier: the first file whose name holds
/// the target. Where none does, it takes the first that names the system and the processor this was
/// built for; which one that is depends on the machine and is not said here.
#[verifier::external_body]
fn asset_for(assets: &Vec<Asset>, target: &str) -> (r: Option<Asset>)
    ensures
        may_choose(r, assets@, target@),
{
    let one = |a: &Asset| ReleaseAsset {
        download_url: a.download_url.clone(),
        name: a.name.clone(),
    };
    let release = Release { assets: assets.iter().map(one).collect(), ..Release::default() };
    match release.asset_for(target, None) {
        Some(a) => Some(Asset { name: a.name, download_url: a.download_url }),
        None => None,
    }
}

/// What a choice among a release's files comes to.
pub fn asset_or(choice: Option<Asset>) -> (r: Result<Asset, NoAsset>)
    ensures
        r == (match choice {
            Some(a) => Ok::<Asset, NoAsset>(a),
            None => Err(NoAsset::NoFile),
        }),
{
    match choice {
        Some(a) => Ok(a),
        None => Err(NoAsset::NoFile),
    }
}

/// The file to take a version's component from: that of the first release of the version whose name
/// holds [`TARGET`].
pub fn pick_asset(releases: &[Published], version: &str) -> (r: Result<Asset, NoAsset>)
    ensures
        is_pick(releases@, version@, r),
{
    let mut i: usize = 0;
    while i < releases.len()
        invariant
            i <= releases@.len(),
            forall|j: int| 0 <= j < i ==> (#[trigger] releases@[j]).version@ != version@,
        decreases releases@.len() - i,
    {
        if text::same_text(releases[i].version.as_str(), version) {
            let choice = asset_for(&releases[i].assets, TARGET);
            proof {
                assert(releases@[i as int].version@ == version@);
            }
            return asset_or(choice);
        }
        i = i + 1;
    }
    Err(NoAsset::NoRelease)
}

/// The file taken is one of the release's; where one names the target it is the first that does; and none is
/// taken only where none does.
pub proof fn law_the_first_file_for_the_target_is_taken(
    r: Option<Asset>,
    assets: Seq<Asset>,
    target: Seq<char>,
    i: int,
)
    requires
        may_choose(r, assets, target),
        0 <= i < assets.len(),
        text::occurs_in(assets[i].name@, target),
        forall|j: int| 0 <= j < i ==> !text::occurs_in((#[trigger] assets[j]).name@, target),
    ensures
        r matches Some(a) && a.name@ == assets[i].name@ && a.download_url@ == assets[i].download_url@,
{
    assert(any_for(assets, target));
    let a = r->Some_0;
    let k = choose|k: int|
        #![trigger assets[k]]
        0 <= k < assets.len() && same_asset(a, assets[k]) && text::occurs_in(assets[k].name@, target)
            && forall|j: int| 0 <= j < k ==> !text::occurs_in((#[trigger] assets[j]).name@, target);
    assert(k == i);
}

/// The directory that a version waits in is named for it.
pub proof fn law_a_directory_is_named_for_its_version(version: Seq<char>)
    ensures
        staging_name(version).skip(15) == version,
        staging_name(version).take(15) == "audio-tray-tap-"@,
{
    reveal_strlit("audio-tray-tap-");
    assert(staging_name(version).skip(15) =~= version);
    assert(staging_name(version).take(15) =~= "audio-tray-tap-"@);
}

/// Whether that is what is picked for a version.
pub open spec fn is_pick(releases: Seq<Published>, version: Seq<char>, r: Result<Asset, NoAsset>) -> bool {
    match r {
        Err(NoAsset::NoRelease) => forall|j: int|
            0 <= j < releases.len() ==> (#[trigger] releases[j]).version@ != version,
        _ => exists|i: int|
            #![trigger releases[i]]
            0 <= i < releases.len() && releases[i].version@ == version && (forall|j: int|
                0 <= j < i ==> (#[trigger] releases[j]).version@ != version) && may_choose(
                match r {
                    Ok(a) => Some(a),
                    Err(_) => None,
                },
                releases[i].assets@,
                TARGET@,
            ),
    }
}

/// Where a release of the version has a file for the system, the first such file of the first such release is
/// picked; and that there is no release is said exactly where there is none.
pub proof fn law_a_versions_own_file_is_picked(
    releases: Seq<Published>,
    version: Seq<char>,
    r: Result<Asset, NoAsset>,
    i: int,
    k: int,
)
    requires
        is_pick(releases, version, r),
    ensures
        (r matches Err(e) && e == NoAsset::NoRelease) <==> (forall|j: int|
            0 <= j < releases.len() ==> (#[trigger] releases[j]).version@ != version),
        0 <= i < releases.len() && releases[i].version@ == version && (forall|j: int|
            0 <= j < i ==> (#[trigger] releases[j]).version@ != version) && 0 <= k
            < releases[i].assets@.len() && text::occurs_in(
            releases[i].assets@[k].name@,
            "x86_64-pc-windows-msvc"@,
        ) && (forall|j: int|
            0 <= j < k ==> !text::occurs_in(
                (#[trigger] releases[i].assets@[j]).name@,
                "x86_64-pc-windows-msvc"@,
            )) ==> (r matches Ok(a) && a.name@ == releases[i].assets@[k].name@ && a.download_url@
            == releases[i].assets@[k].download_url@),
{
    if !(r matches Err(e) && e == NoAsset::NoRelease) {
        let chosen = match r {
            Ok(a) => Some(a),
            Err(_) => None,
        };
        let f = choose|f: int|
            #![trigger releases[f]]
            0 <= f < releases.len() && releases[f].version@ == version && (forall|j: int|
                0 <= j < f ==> (#[trigger] releases[j]).version@ != version) && may_choose(
                chosen,
                releases[f].assets@,
                TARGET@,
            );
        assert(releases[f].version@ == version);
        if 0 <= i < releases.len() && releases[i].version@ == version && (forall|j: int|
            0 <= j < i ==> (#[trigger] releases[j]).version@ != version) {
            assert(f == i);
            if 0 <= k < releases[i].assets@.len() && text::occurs_in(
                releases[i].assets@[k].name@,
                TARGET@,
            ) && (forall|j: int|
                0 <= j < k ==> !text::occurs_in((#[trigger] releases[i].assets@[j]).name@, TARGET@)) {
                law_the_first_file_for_the_target_is_taken(chosen, releases[i].assets@, TARGET@, k);
            }
        }
    } else if 0 <= i < releases.len() {
        assert(releases[i].version@ != version);
    }
}

} // verus!

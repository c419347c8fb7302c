//! Whole updates: what holds of every run of an update, from its beginning to
//! any point of it, whatever came of the requests and file operations.
use vstd::prelude::*;

use crate::checksum;
use crate::release;
use crate::release::GhAsset;
use crate::text;
use crate::update;
use crate::update::{ActionView, Event, Job, ResultView, StateView, Written};
use crate::version;

verus! {

/// The state that the events lead to, and all actions up to it: the first one
/// starts the update, and each event is what came of the action before it. There
/// is no run in which an event is not what the update waits for.
#[verifier::opaque]
pub open spec fn run(job: Job, events: Seq<Event>) -> Option<(StateView, Seq<ActionView>)>
    decreases events.len(),
{
    if events.len() == 0 {
        Some(
            (
                StateView::Asking,
                seq![ActionView::Ask { url: release::latest_release_url(job.tool.repo@) }],
            ),
        )
    } else {
        match run(job, events.drop_last()) {
            None => None,
            Some((s, actions)) => match update::next(job, s, events.last()) {
                None => None,
                Some((s2, a)) => Some((s2, actions.push(a))),
            },
        }
    }
}

/// There is one action more than there are events.
proof fn one_action_more(job: Job, events: Seq<Event>)
    requires
        run(job, events) is Some,
    ensures
        (run(job, events)->0).1.len() == events.len() + 1,
    decreases events.len(),
{
    reveal(run);
    if events.len() > 0 {
        one_action_more(job, events.drop_last());
    }
}

/// How many steps an update can still take.
pub open spec fn steps_left(s: StateView) -> nat {
    match s {
        StateView::Asking => 10,
        StateView::Fetching { .. } => 9,
        StateView::Checking { .. } => 8,
        StateView::Writing { .. } => 7,
        StateView::Marking { .. } => 6,
        StateView::Looking { .. } => 5,
        StateView::Clearing { .. } => 4,
        StateView::MovingAside { .. } => 3,
        StateView::MovingIn { .. } => 2,
        StateView::Tidying { .. } => 1,
        StateView::Spoiling { .. } => 1,
        StateView::Over => 0,
    }
}

/// Every update comes to its end: each event brings it nearer, and none takes
/// more than ten.
pub proof fn every_update_ends(job: Job, events: Seq<Event>)
    requires
        run(job, events) is Some,
    ensures
        events.len() + steps_left((run(job, events)->0).0) <= 10,
    decreases events.len(),
{
    reveal(run);
    if events.len() > 0 {
        every_update_ends(job, events.drop_last());
    }
}

/// The last action of an update that is over, and no other one, tells the
/// result.
pub proof fn result_comes_last(job: Job, events: Seq<Event>)
    requires
        run(job, events) is Some,
    ensures
        (run(job, events)->0).0 == StateView::Over <==> (run(job, events)->0).1.last() is Finish,
        forall|k: int|
            0 <= k < events.len() ==> !(#[trigger] (run(job, events)->0).1[k] is Finish),
    decreases events.len(),
{
    reveal(run);
    if events.len() > 0 {
        let before = events.drop_last();
        result_comes_last(job, before);
        one_action_more(job, before);
        let acts = (run(job, before)->0).1;
        assert forall|k: int| 0 <= k < events.len() implies !(#[trigger] (run(
            job,
            events,
        )->0).1[k] is Finish) by {
            assert((run(job, events)->0).1[k] == acts[k]);
            if k == before.len() {
                assert(acts.last() == acts[k]);
            }
        }
    }
}

/// The action neither downloads nor touches a file.
pub open spec fn harmless(a: ActionView) -> bool {
    a is Ask || a is Finish
}

/// A dry run downloads nothing and touches no file.
pub proof fn dry_run_is_harmless(job: Job, events: Seq<Event>)
    requires
        job.dry_run,
        run(job, events) is Some,
    ensures
        forall|k: int|
            0 <= k < (run(job, events)->0).1.len() ==> harmless(
                #[trigger] (run(job, events)->0).1[k],
            ),
        (run(job, events)->0).0 == StateView::Asking || (run(job, events)->0).0
            == StateView::Over,
    decreases events.len(),
{
    reveal(run);
    if events.len() > 0 {
        let before = events.drop_last();
        dry_run_is_harmless(job, before);
        one_action_more(job, before);
        let acts = (run(job, before)->0).1;
        assert forall|k: int| 0 <= k < (run(job, events)->0).1.len() implies harmless(
            #[trigger] (run(job, events)->0).1[k],
        ) by {
            if k < acts.len() {
                assert((run(job, events)->0).1[k] == acts[k]);
            }
        }
    }
}

/// The release that a reply describes: its tag without leading `v`, its version
/// and its assets.
pub open spec fn describes(
    job: Job,
    e: Event,
    tag: Seq<char>,
    latest: (u64, u64, u64, Seq<char>, Seq<char>),
    assets: Seq<GhAsset>,
) -> bool {
    &&& e matches Event::Release(reply)
    &&& release::fetched(job.tool.repo@, reply) == Ok::<
        (Seq<char>, Seq<GhAsset>),
        Seq<Seq<char>>,
    >((tag, assets))
    &&& version::semver_parse(tag) == Some(latest)
}

/// Without force, an installed version that is at least as new as the latest one
/// stays: nothing is downloaded and no file is touched.
pub proof fn up_to_date_is_harmless(
    job: Job,
    events: Seq<Event>,
    tag: Seq<char>,
    latest: (u64, u64, u64, Seq<char>, Seq<char>),
    assets: Seq<GhAsset>,
)
    requires
        run(job, events) is Some,
        events.len() > 0,
        describes(job, events[0], tag, latest, assets),
        update::settled(job, latest),
    ensures
        forall|k: int|
            0 <= k < (run(job, events)->0).1.len() ==> harmless(
                #[trigger] (run(job, events)->0).1[k],
            ),
        !job.dry_run ==> (run(job, events)->0).1.last() == ActionView::Finish(
            Ok(ResultView::UpToDate(version::version_text(job.current->0@))),
        ),
    decreases events.len(),
{
    reveal(run);
    let before = events.drop_last();
    if before.len() > 0 {
        up_to_date_is_harmless(job, before, tag, latest, assets);
        result_comes_last(job, before);
        if job.dry_run {
            dry_run_is_harmless(job, before);
            every_update_ends(job, before);
        }
    } else {
        assert(events.last() == events[0]);
        reveal_with_fuel(run, 2);
    }
}

/// The downloads of a run hold this asset of the release, and nothing that was
/// downloaded speaks against it: the release has no checksum file for the asset,
/// or that file was downloaded after it and speaks for it.
pub open spec fn trusted_asset(
    job: Job,
    events: Seq<Event>,
    tag: Seq<char>,
    assets: Seq<GhAsset>,
    asset: Seq<u8>,
) -> bool {
    let name = job.tool.spec_asset_name(tag, job.platform);
    &&& events.len() >= 2
    &&& (events[1] matches Event::Body(Ok(body)) && body@ == asset)
    &&& checksum::checksum_file(assets, name) is Some ==> {
        &&& events.len() >= 3
        &&& (events[2] matches Event::Body(Ok(checksums)) && checksum::vouches(
            checksums@,
            name,
            asset,
        ))
    }
}

/// The bytes are the executable that an asset of release `tag` holds: the asset
/// itself, or the whole content of the entry that the tool names.
pub open spec fn executable_of(
    job: Job,
    tag: Seq<char>,
    asset: Seq<u8>,
    bytes: Seq<u8>,
) -> bool {
    match job.tool.spec_archive_entry(tag, job.platform) {
        None => bytes == asset,
        Some(entry) => match update::archive_of(job.tool.spec_download_url(tag, job.platform)) {
            None => false,
            Some(archive) => update::extracted(archive, asset, entry, job.platform.windows)
                == crate::archive::Extracted::Whole(bytes),
        },
    }
}

/// The bytes are what can be read of the executable that an asset of release `tag`
/// holds, where that entry of the asset is damaged.
pub open spec fn remnant_of(
    job: Job,
    tag: Seq<char>,
    asset: Seq<u8>,
    bytes: Seq<u8>,
) -> bool {
    match job.tool.spec_archive_entry(tag, job.platform) {
        None => false,
        Some(entry) => match update::archive_of(job.tool.spec_download_url(tag, job.platform)) {
            None => false,
            Some(archive) => update::extracted(
                archive,
                asset,
                entry,
                job.platform.windows,
            ) matches crate::archive::Extracted::Damaged { read, .. } && read == bytes,
        },
    }
}

/// A run has every right to unpack this asset: the latest release is not settled,
/// the run is no dry run, and the asset is a trusted one of the release.
pub open spec fn rightful_asset(
    job: Job,
    events: Seq<Event>,
    tag: Seq<char>,
    latest: (u64, u64, u64, Seq<char>, Seq<char>),
    assets: Seq<GhAsset>,
    asset: Seq<u8>,
) -> bool {
    &&& events.len() > 0
    &&& describes(job, events[0], tag, latest, assets)
    &&& !job.dry_run
    &&& !update::settled(job, latest)
    &&& trusted_asset(job, events, tag, assets, asset)
}

/// The bytes are the executable that a rightful asset holds.
pub open spec fn rightful_bytes(job: Job, events: Seq<Event>, bytes: Seq<u8>) -> bool {
    exists|
        tag: Seq<char>,
        latest: (u64, u64, u64, Seq<char>, Seq<char>),
        assets: Seq<GhAsset>,
        asset: Seq<u8>,
    | #[trigger]
        rightful_asset(job, events, tag, latest, assets, asset) && executable_of(
            job,
            tag,
            asset,
            bytes,
        )
}

/// The bytes are what can be read of a damaged executable that a rightful asset
/// holds.
pub open spec fn rightful_remnant(job: Job, events: Seq<Event>, bytes: Seq<u8>) -> bool {
    exists|
        tag: Seq<char>,
        latest: (u64, u64, u64, Seq<char>, Seq<char>),
        assets: Seq<GhAsset>,
        asset: Seq<u8>,
    | #[trigger]
        rightful_asset(job, events, tag, latest, assets, asset) && remnant_of(
            job,
            tag,
            asset,
            bytes,
        )
}

/// Where the action writes, it writes to the file beside the installed executable,
/// and it has every right to write these bytes.
pub open spec fn writes_rightfully(job: Job, events: Seq<Event>, a: ActionView) -> bool {
    match a {
        ActionView::Write { file, bytes } => file == update::tmp_file(job) && rightful_bytes(
            job,
            events,
            bytes,
        ),
        ActionView::Salvage { file, bytes } => file == update::tmp_file(job) && rightful_remnant(
            job,
            events,
            bytes,
        ),
        _ => true,
    }
}

/// What the downloads of a run have to do with the state that it is in.
spec fn downloads_match(job: Job, events: Seq<Event>, s: StateView) -> bool {
    match s {
        StateView::Asking => events.len() == 0,
        StateView::Fetching { latest, tag, assets } => {
            &&& events.len() == 1
            &&& describes(job, events[0], tag, latest, assets)
            &&& !job.dry_run
            &&& !update::settled(job, latest)
        },
        StateView::Checking { latest, tag, asset, .. } => {
            &&& events.len() == 2
            &&& exists|assets: Seq<GhAsset>| #[trigger]
                describes(job, events[0], tag, latest, assets)
            &&& !job.dry_run
            &&& !update::settled(job, latest)
            &&& (events[1] matches Event::Body(Ok(body)) && body@ == asset)
        },
        _ => true,
    }
}

/// Unpacking an asset leads neither back to a download nor beyond the writing.
proof fn unpacking_goes_on(
    job: Job,
    latest: (u64, u64, u64, Seq<char>, Seq<char>),
    tag: Seq<char>,
    asset: Seq<u8>,
)
    ensures
        ({
            let (s, a) = update::unpacked(job, latest, tag, asset);
            ||| s is Writing && a is Write
            ||| s is Spoiling && a is Salvage
            ||| s is Over && a is Finish
        }),
{
}

proof fn downloads_always_match(job: Job, events: Seq<Event>)
    requires
        run(job, events) is Some,
    ensures
        downloads_match(job, events, (run(job, events)->0).0),
    decreases events.len(),
{
    reveal(run);
    if events.len() > 0 {
        let before = events.drop_last();
        downloads_always_match(job, before);
        let s = (run(job, before)->0).0;
        assert(events.last() == events[events.len() - 1]);
        match s {
            StateView::Asking => {
                assert(events[0] == events.last());
                let s2 = (run(job, events)->0).0;
                if let StateView::Fetching { latest, tag, assets } = s2 {
                    assert(describes(job, events[0], tag, latest, assets));
                }
            },
            StateView::Fetching { latest, tag, assets } => {
                assert(events[0] == before[0] && events[1] == events.last());
                assert(describes(job, events[0], tag, latest, assets));
                unpacking_goes_on(job, latest, tag, events.last()->Body_0->Ok_0@);
                let s2 = (run(job, events)->0).0;
                if let StateView::Checking { latest: l, tag: t, asset, .. } = s2 {
                    assert(l == latest && t == tag);
                    assert(events[1] matches Event::Body(Ok(body)) && body@ == asset);
                }
            },
            StateView::Checking { latest, tag, asset, .. } => {
                unpacking_goes_on(job, latest, tag, asset);
            },
            _ => {},
        }
    }
}

/// What was right to unpack stays so, whatever follows.
proof fn rightful_asset_stays(
    job: Job,
    events: Seq<Event>,
    tag: Seq<char>,
    latest: (u64, u64, u64, Seq<char>, Seq<char>),
    assets: Seq<GhAsset>,
    asset: Seq<u8>,
    e: Event,
)
    requires
        rightful_asset(job, events, tag, latest, assets, asset),
    ensures
        rightful_asset(job, events.push(e), tag, latest, assets, asset),
{
    let more = events.push(e);
    assert(more[0] == events[0] && more[1] == events[1]);
    if events.len() >= 3 {
        assert(more[2] == events[2]);
    }
}

/// What was right to write stays so, whatever follows.
proof fn rightful_stays(job: Job, events: Seq<Event>, a: ActionView, e: Event)
    requires
        writes_rightfully(job, events, a),
    ensures
        writes_rightfully(job, events.push(e), a),
{
    match a {
        ActionView::Write { bytes, .. } => {
            let (tag, latest, assets, asset) = choose|
                tag: Seq<char>,
                latest: (u64, u64, u64, Seq<char>, Seq<char>),
                assets: Seq<GhAsset>,
                asset: Seq<u8>,
            | #[trigger]
                rightful_asset(job, events, tag, latest, assets, asset) && executable_of(
                    job,
                    tag,
                    asset,
                    bytes,
                );
            rightful_asset_stays(job, events, tag, latest, assets, asset, e);
        },
        ActionView::Salvage { bytes, .. } => {
            let (tag, latest, assets, asset) = choose|
                tag: Seq<char>,
                latest: (u64, u64, u64, Seq<char>, Seq<char>),
                assets: Seq<GhAsset>,
                asset: Seq<u8>,
            | #[trigger]
                rightful_asset(job, events, tag, latest, assets, asset) && remnant_of(
                    job,
                    tag,
                    asset,
                    bytes,
                );
            rightful_asset_stays(job, events, tag, latest, assets, asset, e);
        },
        _ => {},
    }
}

/// Nothing is written but the executable of the latest release or, where that is
/// damaged, what can be read of it; to no file but the one beside the installed
/// executable; and only once nothing that was downloaded speaks against it: of an
/// asset that its checksum file does not speak for, nothing is ever written.
pub proof fn only_rightful_bytes_are_written(job: Job, events: Seq<Event>)
    requires
        run(job, events) is Some,
    ensures
        forall|k: int|
            0 <= k < (run(job, events)->0).1.len() ==> writes_rightfully(
                job,
                events,
                #[trigger] (run(job, events)->0).1[k],
            ),
    decreases events.len(),
{
    reveal(run);
    if events.len() > 0 {
        let before = events.drop_last();
        only_rightful_bytes_are_written(job, before);
        downloads_always_match(job, before);
        one_action_more(job, before);
        let (s, acts) = run(job, before)->0;
        let all = (run(job, events)->0).1;
        assert(events =~= before.push(events.last()));
        assert forall|k: int| 0 <= k < all.len() implies writes_rightfully(
            job,
            events,
            #[trigger] all[k],
        ) by {
            if k < acts.len() {
                assert(all[k] == acts[k]);
                rightful_stays(job, before, acts[k], events.last());
            } else {
                step_writes_rightfully(job, before, s, events.last());
            }
        }
    }
}

/// A step that writes is taken with every right.
proof fn step_writes_rightfully(job: Job, before: Seq<Event>, s: StateView, e: Event)
    requires
        update::next(job, s, e) is Some,
        downloads_match(job, before, s),
    ensures
        writes_rightfully(job, before.push(e), (update::next(job, s, e)->0).1),
{
    let a = (update::next(job, s, e)->0).1;
    let events = before.push(e);
    if a is Write || a is Salvage {
        match s {
            StateView::Fetching { latest, tag, assets } => {
                let asset = e->Body_0->Ok_0@;
                assert(events[0] == before[0] && events[1] == e);
                assert(rightful_asset(job, events, tag, latest, assets, asset));
            },
            StateView::Checking { latest, tag, asset, .. } => {
                let assets = choose|assets: Seq<GhAsset>| #[trigger]
                    describes(job, before[0], tag, latest, assets);
                assert(events[0] == before[0] && events[1] == before[1] && events[2] == e);
                assert(rightful_asset(job, events, tag, latest, assets, asset));
            },
            _ => {},
        }
    }
}

/// The three files that an update deals with: the installed executable, the new
/// one beside it, and the former one that was moved aside.
pub struct Files {
    pub installed: Option<Seq<u8>>,
    pub tmp: Option<Seq<u8>>,
    pub old: Option<Seq<u8>>,
}

/// An action that came to an event may have changed the files in this way.
pub open spec fn happens(f: Files, a: ActionView, e: Event, g: Files) -> bool {
    match a {
        ActionView::Salvage { bytes, .. } => {
            &&& g.installed == f.installed
            &&& g.old == f.old
            &&& e == Event::Written(Written::Done) ==> g.tmp == Some(bytes)
        },
        ActionView::Write { bytes, .. } => {
            &&& g.installed == f.installed
            &&& g.old == f.old
            &&& e == Event::Written(Written::Done) ==> g.tmp == Some(bytes)
        },
        ActionView::LookForInstalled => g == f && e == Event::Installed(f.installed is Some),
        ActionView::Remove { .. } => {
            &&& g.installed == f.installed
            &&& g.tmp == f.tmp
            &&& g.old == f.old || g.old is None
        },
        ActionView::MoveAside { .. } => if e is Moved && e->Moved_0 is Ok {
            &&& f.installed is Some
            &&& g.installed is None
            &&& g.tmp == f.tmp
            &&& g.old == f.installed
        } else {
            g == f
        },
        ActionView::MoveIn { .. } => if e is Moved && e->Moved_0 is Ok {
            &&& f.tmp is Some
            &&& g.installed == f.tmp
            &&& g.tmp is None
            &&& g.old == f.old
        } else {
            g == f
        },
        _ => g == f,
    }
}

/// What the files held before each event of a run, and after the last one.
pub open spec fn witnessed(job: Job, events: Seq<Event>, files: Seq<Files>) -> bool {
    &&& run(job, events) is Some
    &&& files.len() == events.len() + 1
    &&& forall|k: int|
        #![trigger files[k]]
        #![trigger events[k]]
        0 <= k < events.len() ==> happens(
            files[k],
            (run(job, events)->0).1[k],
            events[k],
            files[k + 1],
        )
}

/// The bytes were written in a run.
pub open spec fn written_in(actions: Seq<ActionView>, bytes: Seq<u8>) -> bool {
    exists|k: int|
        0 <= k < actions.len() && (#[trigger] actions[k] matches ActionView::Write { bytes: b, .. }
            && b == bytes)
}

/// The installed executable is one that the run wrote.
pub open spec fn replaced_in(actions: Seq<ActionView>, f: Files) -> bool {
    f.installed is Some && written_in(actions, f.installed->0)
}

/// What the files hold in a state, where the installed executable was `first` at
/// the beginning.
spec fn files_match(
    s: StateView,
    actions: Seq<ActionView>,
    first: Option<Seq<u8>>,
    f: Files,
) -> bool {
    match s {
        StateView::Marking { .. } | StateView::Looking { .. } => {
            &&& f.installed == first
            &&& f.tmp is Some
            &&& written_in(actions, f.tmp->0)
        },
        StateView::Clearing { .. } | StateView::MovingAside { .. } => {
            &&& f.installed == first
            &&& first is Some
            &&& f.tmp is Some
            &&& written_in(actions, f.tmp->0)
        },
        StateView::MovingIn { .. } => {
            &&& f.installed is None
            &&& first is Some ==> f.old == first
            &&& f.tmp is Some
            &&& written_in(actions, f.tmp->0)
        },
        StateView::Tidying { .. } => replaced_in(actions, f) && f.tmp is None,
        StateView::Over => if actions.last() is Finish && actions.last()->Finish_0 is Ok && (
        actions.last()->Finish_0->Ok_0 is Updated || actions.last()->Finish_0->Ok_0 is Installed) {
            replaced_in(actions, f) && f.tmp is None
        } else {
            f.installed == first || (f.installed is None && f.old == first)
        },
        _ => f.installed == first,
    }
}

proof fn written_stays(actions: Seq<ActionView>, bytes: Seq<u8>, a: ActionView)
    requires
        written_in(actions, bytes),
    ensures
        written_in(actions.push(a), bytes),
{
    let k = choose|k: int|
        0 <= k < actions.len() && (#[trigger] actions[k] matches ActionView::Write { bytes: b, .. }
            && b == bytes);
    assert(actions.push(a)[k] == actions[k]);
}

/// What pairs the state of a run with its last action.
spec fn waits_for(s: StateView, a: ActionView) -> bool {
    match s {
        StateView::Asking => a is Ask,
        StateView::Fetching { .. } => a is Download,
        StateView::Checking { .. } => a is Download,
        StateView::Writing { .. } => a is Write,
        StateView::Spoiling { .. } => a is Salvage,
        StateView::Marking { .. } => a is MakeExecutable,
        StateView::Looking { .. } => a is LookForInstalled,
        StateView::Clearing { .. } => a is Remove,
        StateView::MovingAside { .. } => a is MoveAside,
        StateView::MovingIn { .. } => a is MoveIn,
        StateView::Tidying { .. } => a is Remove,
        StateView::Over => a is Finish,
    }
}

proof fn waits_for_last(job: Job, events: Seq<Event>)
    requires
        run(job, events) is Some,
    ensures
        waits_for((run(job, events)->0).0, (run(job, events)->0).1.last()),
{
    reveal(run);
    if events.len() > 0 {
        step_waits(job, (run(job, events.drop_last())->0).0, events.last());
    }
}

proof fn step_waits(job: Job, s: StateView, e: Event)
    requires
        update::next(job, s, e) is Some,
    ensures
        waits_for((update::next(job, s, e)->0).0, (update::next(job, s, e)->0).1),
{
    match s {
        StateView::Fetching { latest, tag, .. } => {
            unpacking_goes_on(job, latest, tag, e->Body_0->Ok_0@);
        },
        StateView::Checking { latest, tag, asset, .. } => {
            unpacking_goes_on(job, latest, tag, asset);
        },
        _ => {},
    }
}

/// The beginning of a witnessed run is witnessed too.
proof fn witnessed_before(job: Job, events: Seq<Event>, files: Seq<Files>)
    requires
        witnessed(job, events, files),
        events.len() > 0,
    ensures
        witnessed(job, events.drop_last(), files.drop_last()),
        happens(
            files[files.len() - 2],
            (run(job, events.drop_last())->0).1.last(),
            events.last(),
            files.last(),
        ),
{
    reveal(run);
    let before = events.drop_last();
    let earlier = files.drop_last();
    one_action_more(job, before);
    let acts = (run(job, before)->0).1;
    let all = (run(job, events)->0).1;
    assert forall|k: int|
        #![trigger earlier[k]]
        #![trigger before[k]]
        0 <= k < before.len() implies happens(
        earlier[k],
        acts[k],
        before[k],
        earlier[k + 1],
    ) by {
        assert(files[k] == earlier[k] && files[k + 1] == earlier[k + 1]);
        assert(all[k] == acts[k] && events[k] == before[k]);
    }
    let n = before.len() as int;
    assert(all[n] == acts.last());
    assert(happens(files[n], all[n], events[n], files[n + 1]));
}

#[verifier::rlimit(40)]
proof fn files_always_match(job: Job, events: Seq<Event>, files: Seq<Files>)
    requires
        witnessed(job, events, files),
    ensures
        files_match(
            (run(job, events)->0).0,
            (run(job, events)->0).1,
            files[0].installed,
            files.last(),
        ),
    decreases events.len(),
{
    reveal(run);
    if events.len() > 0 {
        let before = events.drop_last();
        witnessed_before(job, events, files);
        files_always_match(job, before, files.drop_last());
        waits_for_last(job, before);
        one_action_more(job, before);
        let (s, acts) = run(job, before)->0;
        let (s2, all) = run(job, events)->0;
        let f = files[files.len() - 2];
        let g = files.last();
        let e = events.last();
        let a = all.last();
        assert(files.drop_last().last() == f);
        assert(files.drop_last()[0] == files[0]);
        assert(all == acts.push(a));
        match s {
            StateView::Writing { .. } => {
                if let ActionView::Write { bytes, .. } = acts.last() {
                    assert(acts[acts.len() - 1] == acts.last());
                    assert(written_in(acts, bytes));
                    written_stays(acts, bytes, a);
                }
            },
            StateView::Marking { .. } => {
                written_stays(acts, f.tmp->0, a);
            },
            StateView::Looking { .. } => {
                written_stays(acts, f.tmp->0, a);
            },
            StateView::Clearing { .. } => {
                written_stays(acts, f.tmp->0, a);
            },
            StateView::MovingAside { .. } => {
                written_stays(acts, f.tmp->0, a);
            },
            StateView::MovingIn { .. } => {
                written_stays(acts, f.tmp->0, a);
            },
            StateView::Tidying { .. } => {
                written_stays(acts, f.installed->0, a);
            },
            _ => {},
        }
    }
}

/// The executable that was installed at the beginning is never lost without a new
/// one in its place: at every point of an update, and so wherever it is broken
/// off, an executable is installed, or the former one has been moved aside.
pub proof fn executable_survives(job: Job, events: Seq<Event>, files: Seq<Files>)
    requires
        witnessed(job, events, files),
        files[0].installed is Some,
    ensures
        forall|k: int|
            0 <= k < files.len() ==> (#[trigger] files[k]).installed is Some || files[k].old
                == files[0].installed,
    decreases events.len(),
{
    files_always_match(job, events, files);
    if events.len() > 0 {
        witnessed_before(job, events, files);
        executable_survives(job, events.drop_last(), files.drop_last());
        assert forall|k: int| 0 <= k < files.len() implies (#[trigger] files[k]).installed is Some
            || files[k].old == files[0].installed by {
            if k < files.len() - 1 {
                assert(files.drop_last()[k] == files[k]);
                assert(files.drop_last()[0] == files[0]);
            }
        }
    }
}

/// After an update that reports an installation, the installed executable is the
/// one that was written: the executable of the latest release, from an asset that
/// nothing speaks against. The file beside it that it was written to is gone.
pub proof fn success_installs_the_release(job: Job, events: Seq<Event>, files: Seq<Files>)
    requires
        witnessed(job, events, files),
        (run(job, events)->0).1.last() matches ActionView::Finish(Ok(r)) && (r is Updated
            || r is Installed),
    ensures
        files.last().installed is Some,
        rightful_bytes(job, events, files.last().installed->0),
        files.last().tmp is None,
{
    files_always_match(job, events, files);
    result_comes_last(job, events);
    only_rightful_bytes_are_written(job, events);
    let acts = (run(job, events)->0).1;
    let bytes = files.last().installed->0;
    let k = choose|k: int|
        0 <= k < acts.len() && (#[trigger] acts[k] matches ActionView::Write { bytes: b, .. } && b
            == bytes);
    assert(acts[k] is Write);
}

/// After an update that ends in any other way, the installed executable is the
/// one of the beginning, or it has been moved aside.
pub proof fn failure_keeps_the_executable(job: Job, events: Seq<Event>, files: Seq<Files>)
    requires
        witnessed(job, events, files),
        (run(job, events)->0).1.last() matches ActionView::Finish(r) && !(r is Ok && (r->Ok_0
            is Updated || r->Ok_0 is Installed)),
    ensures
        files.last().installed == files[0].installed || (files.last().installed is None
            && files.last().old == files[0].installed),
{
    files_always_match(job, events, files);
    result_comes_last(job, events);
}

/// With force, the asset of the latest release is downloaded, whatever version is
/// installed.
pub proof fn force_downloads(
    job: Job,
    events: Seq<Event>,
    tag: Seq<char>,
    latest: (u64, u64, u64, Seq<char>, Seq<char>),
    assets: Seq<GhAsset>,
)
    requires
        job.force,
        !job.dry_run,
        events.len() == 1,
        describes(job, events[0], tag, latest, assets),
    ensures
        run(job, events) == Some(
            (
                (StateView::Fetching { latest, tag, assets }),
                seq![
                    ActionView::Ask { url: release::latest_release_url(job.tool.repo@) },
                    ActionView::Download { url: job.tool.spec_download_url(tag, job.platform) },
                ],
            ),
        ),
{
    reveal_with_fuel(run, 2);
    assert(events.drop_last().len() == 0);
    assert(events.last() == events[0]);
    let first = seq![ActionView::Ask { url: release::latest_release_url(job.tool.repo@) }];
    let second = ActionView::Download { url: job.tool.spec_download_url(tag, job.platform) };
    assert(first.push(second) =~= (run(job, events)->0).1);
}

/// The action deals with no file but the two beside the installed executable, and
/// with each in its own way.
pub open spec fn keeps_to_its_files(job: Job, a: ActionView) -> bool {
    match a {
        ActionView::Salvage { file, .. } => file == update::tmp_file(job),
        ActionView::Write { file, .. } => file == update::tmp_file(job),
        ActionView::MakeExecutable { file } => file == update::tmp_file(job),
        ActionView::MoveIn { file } => file == update::tmp_file(job),
        ActionView::MoveAside { file } => file == update::old_file(job),
        ActionView::Remove { file } => file == update::old_file(job),
        _ => true,
    }
}

/// An update writes to one file and removes another one, neither of which is the
/// installed executable: that one is only ever renamed.
pub proof fn installed_file_is_only_renamed(job: Job, events: Seq<Event>)
    requires
        run(job, events) is Some,
    ensures
        forall|k: int|
            0 <= k < (run(job, events)->0).1.len() ==> keeps_to_its_files(
                job,
                #[trigger] (run(job, events)->0).1[k],
            ),
        update::tmp_file(job) != update::old_file(job),
        update::tmp_file(job) != job.tool.spec_exe_file(job.platform),
        update::old_file(job) != job.tool.spec_exe_file(job.platform),
    decreases events.len(),
{
    reveal(run);
    reveal_strlit(".tmp");
    reveal_strlit(".old");
    let exe = job.tool.spec_exe_file(job.platform);
    assert(update::tmp_file(job)[exe.len() as int + 1] == 't');
    assert(update::old_file(job)[exe.len() as int + 1] == 'o');
    assert(update::tmp_file(job).len() == exe.len() + 4);
    assert(update::old_file(job).len() == exe.len() + 4);
    if events.len() > 0 {
        let before = events.drop_last();
        installed_file_is_only_renamed(job, before);
        one_action_more(job, before);
        let (s, acts) = run(job, before)->0;
        let all = (run(job, events)->0).1;
        step_keeps_to_its_files(job, s, events.last());
        assert forall|k: int| 0 <= k < all.len() implies keeps_to_its_files(
            job,
            #[trigger] all[k],
        ) by {
            if k < acts.len() {
                assert(all[k] == acts[k]);
            }
        }
    }
}

proof fn step_keeps_to_its_files(job: Job, s: StateView, e: Event)
    requires
        update::next(job, s, e) is Some,
    ensures
        keeps_to_its_files(job, (update::next(job, s, e)->0).1),
{
}

/// What is downloaded from `url` belongs to the latest release: its asset for the
/// tool, or the checksum file of that asset.
pub open spec fn release_url(job: Job, e: Event, url: Seq<char>) -> bool {
    exists|
        tag: Seq<char>,
        latest: (u64, u64, u64, Seq<char>, Seq<char>),
        assets: Seq<GhAsset>,
    |
        {
            &&& #[trigger] describes(job, e, tag, latest, assets)
            &&& {
                ||| url == job.tool.spec_download_url(tag, job.platform)
                ||| (checksum::checksum_file(assets, job.tool.spec_asset_name(tag, job.platform))
                    matches Some(file) && url == file.browser_download_url@)
            }
        }
}

/// Nothing is downloaded but what belongs to the latest release.
pub proof fn only_the_release_is_downloaded(job: Job, events: Seq<Event>)
    requires
        run(job, events) is Some,
    ensures
        forall|k: int|
            #![trigger (run(job, events)->0).1[k]]
            0 <= k < (run(job, events)->0).1.len() ==> ((run(job, events)->0).1[k] matches
                ActionView::Download { url } ==> events.len() > 0 && release_url(
                job,
                events[0],
                url,
            )),
    decreases events.len(),
{
    reveal(run);
    if events.len() > 0 {
        let before = events.drop_last();
        only_the_release_is_downloaded(job, before);
        downloads_always_match(job, before);
        downloads_always_match(job, events);
        one_action_more(job, before);
        let (s, acts) = run(job, before)->0;
        let (s2, all) = run(job, events)->0;
        let e = events.last();
        assert forall|k: int| #![trigger all[k]] 0 <= k < all.len() implies (all[k] matches
            ActionView::Download { url } ==> events.len() > 0 && release_url(
            job,
            events[0],
            url,
        )) by {
            if k < acts.len() {
                assert(all[k] == acts[k]);
                if before.len() > 0 {
                    assert(before[0] == events[0]);
                }
            } else if let ActionView::Download { url } = all[k] {
                match s {
                    StateView::Asking => {
                        if let StateView::Fetching { latest, tag, assets } = s2 {
                            assert(describes(job, events[0], tag, latest, assets));
                        }
                    },
                    StateView::Fetching { latest, tag, assets } => {
                        assert(before[0] == events[0]);
                        assert(describes(job, events[0], tag, latest, assets));
                        unpacking_goes_on(job, latest, tag, e->Body_0->Ok_0@);
                    },
                    StateView::Checking { latest, tag, asset, .. } => {
                        unpacking_goes_on(job, latest, tag, asset);
                    },
                    _ => {},
                }
            }
        }
    }
}

/// The event is of the kind that tells what came of the action.
pub open spec fn answers(a: ActionView, e: Event) -> bool {
    match a {
        ActionView::Ask { .. } => e is Release,
        ActionView::Download { .. } => e is Body,
        ActionView::Salvage { .. } => e is Written,
        ActionView::Write { .. } => e is Written,
        ActionView::MakeExecutable { .. } => e is Tried,
        ActionView::LookForInstalled => e is Installed,
        ActionView::Remove { .. } => e is Tried,
        ActionView::MoveAside { .. } => e is Moved,
        ActionView::MoveIn { .. } => e is Moved,
        ActionView::Finish(_) => false,
    }
}

/// An update takes every event that tells what came of its last action, and no
/// other one; so it goes on until it is over, whatever comes of its actions.
pub proof fn every_answer_is_taken(job: Job, events: Seq<Event>, e: Event)
    requires
        run(job, events) is Some,
    ensures
        run(job, events.push(e)) is Some <==> answers((run(job, events)->0).1.last(), e),
        update::next(job, (run(job, events)->0).0, e) is Some <==> answers(
            (run(job, events)->0).1.last(),
            e,
        ),
{
    reveal(run);
    waits_for_last(job, events);
    assert(events.push(e).drop_last() =~= events);
    assert(events.push(e).last() == e);
}

/// The version that a state is about to install.
spec fn version_at(s: StateView) -> Option<(u64, u64, u64, Seq<char>, Seq<char>)> {
    match s {
        StateView::Fetching { latest, .. } => Some(latest),
        StateView::Checking { latest, .. } => Some(latest),
        StateView::Writing { latest, .. } => Some(latest),
        StateView::Marking { latest } => Some(latest),
        StateView::Looking { latest } => Some(latest),
        StateView::Clearing { latest } => Some(latest),
        StateView::MovingAside { latest } => Some(latest),
        StateView::MovingIn { latest } => Some(latest),
        StateView::Tidying { latest } => Some(latest),
        _ => None,
    }
}

/// The version is that of the release that a reply describes.
pub open spec fn described_version(
    job: Job,
    e: Event,
    latest: (u64, u64, u64, Seq<char>, Seq<char>),
) -> bool {
    exists|tag: Seq<char>, assets: Seq<GhAsset>| describes(job, e, tag, latest, assets)
}

proof fn step_keeps_the_version(job: Job, s: StateView, e: Event)
    requires
        update::next(job, s, e) is Some,
        version_at((update::next(job, s, e)->0).0) is Some,
    ensures
        s == StateView::Asking ==> described_version(
            job,
            e,
            version_at((update::next(job, s, e)->0).0)->0,
        ),
        s != StateView::Asking ==> version_at(s) == version_at((update::next(job, s, e)->0).0),
{
    let s2 = (update::next(job, s, e)->0).0;
    match s {
        StateView::Asking => {
            if let StateView::Fetching { latest, tag, assets } = s2 {
                assert(describes(job, e, tag, latest, assets));
            }
        },
        _ => {},
    }
}

proof fn version_is_described(job: Job, events: Seq<Event>)
    requires
        run(job, events) is Some,
        version_at((run(job, events)->0).0) is Some,
    ensures
        events.len() > 0,
        described_version(job, events[0], version_at((run(job, events)->0).0)->0),
    decreases events.len(),
{
    reveal(run);
    if events.len() > 0 {
        let before = events.drop_last();
        let s = (run(job, before)->0).0;
        step_keeps_the_version(job, s, events.last());
        downloads_always_match(job, before);
        if s == StateView::Asking {
            assert(events.last() == events[0]);
        } else {
            version_is_described(job, before);
            assert(before[0] == events[0]);
        }
    }
}

/// An update that reports an installation names the version of the latest release;
/// it reports a change from the installed version where there was one, and a first
/// installation where there was none.
pub proof fn success_names_the_versions(job: Job, events: Seq<Event>)
    requires
        run(job, events) is Some,
    ensures
        match (run(job, events)->0).1.last() {
            ActionView::Finish(Ok(ResultView::Updated { from, to })) => {
                &&& current_is(job, Some(from))
                &&& names_the_release(job, events, to)
            },
            ActionView::Finish(Ok(ResultView::Installed(to))) => {
                &&& current_is(job, None)
                &&& names_the_release(job, events, to)
            },
            _ => true,
        },
{
    reveal(run);
    if events.len() > 0 {
        let before = events.drop_last();
        let (s, acts) = run(job, before)->0;
        let a = (run(job, events)->0).1.last();
        assert(a == (update::next(job, s, events.last())->0).1);
        if let StateView::Tidying { latest } = s {
            version_is_described(job, before);
            assert(before[0] == events[0]);
            assert(described_version(job, events[0], latest));
        } else {
            installs_when_tidy(job, s, events.last());
        }
    }
}

/// The text of the installed version is this one.
pub open spec fn current_is(job: Job, version: Option<Seq<char>>) -> bool {
    update::current_text(job) == version
}

/// The text is the version of the release that the first event describes.
pub open spec fn names_the_release(job: Job, events: Seq<Event>, to: Seq<char>) -> bool {
    exists|latest: (u64, u64, u64, Seq<char>, Seq<char>)|
        {
            &&& events.len() > 0
            &&& #[trigger] described_version(job, events[0], latest)
            &&& to == version::version_text(latest)
        }
}

proof fn installs_when_tidy(job: Job, s: StateView, e: Event)
    requires
        update::next(job, s, e) is Some,
        !(s is Tidying),
    ensures
        !((update::next(job, s, e)->0).1 matches ActionView::Finish(Ok(r)) && (r is Updated
            || r is Installed)),
{
}

/// One event more takes a run one step further.
proof fn one_step_further(job: Job, events: Seq<Event>, e: Event)
    requires
        run(job, events) is Some,
        update::next(job, (run(job, events)->0).0, e) is Some,
    ensures
        run(job, events.push(e)) == Some(
            (
                (update::next(job, (run(job, events)->0).0, e)->0).0,
                (run(job, events)->0).1.push((update::next(job, (run(job, events)->0).0, e)->0).1),
            ),
        ),
{
    reveal(run);
    assert(events.push(e).drop_last() =~= events);
    assert(events.push(e).last() == e);
}

/// A run reports that a tool is up to date only where it is, by the order of the
/// installed version and the latest release, and without force; and then it names
/// the installed version.
pub proof fn up_to_date_is_told_only_of_new_versions(job: Job, events: Seq<Event>)
    requires
        run(job, events) is Some,
    ensures
        (run(job, events)->0).1.last() matches ActionView::Finish(Ok(ResultView::UpToDate(v)))
            ==> {
            &&& !job.force
            &&& !job.dry_run
            &&& job.current is Some
            &&& v == version::version_text(job.current->0@)
            &&& events.len() == 1
            &&& exists|latest: (u64, u64, u64, Seq<char>, Seq<char>)| #[trigger]
                described_version(job, events[0], latest) && version::version_at_least(
                    job.current->0@,
                    latest,
                )
        },
{
    reveal(run);
    if events.len() > 0 {
        let before = events.drop_last();
        let s = (run(job, before)->0).0;
        let e = events.last();
        downloads_always_match(job, before);
        match s {
            StateView::Asking => {
                assert(e == events[0]);
                if let Event::Release(reply) = e {
                    if let Ok((tag, assets)) = release::fetched(job.tool.repo@, reply) {
                        if let Some(latest) = version::semver_parse(tag) {
                            assert(describes(job, e, tag, latest, assets));
                            assert(described_version(job, e, latest));
                        }
                    }
                }
            },
            StateView::Fetching { latest, tag, .. } => {
                unpacking_goes_on(job, latest, tag, e->Body_0->Ok_0@);
                no_result_before_the_end(job, s, e);
            },
            _ => {
                no_result_before_the_end(job, s, e);
            },
        }
    }
}

proof fn no_result_before_the_end(job: Job, s: StateView, e: Event)
    requires
        update::next(job, s, e) is Some,
        !(s is Asking),
    ensures
        !((update::next(job, s, e)->0).1 matches ActionView::Finish(Ok(r)) && !(r is Updated
            || r is Installed)),
{
}

/// The release that is asked for is downloaded where the order of versions or force
/// demands it: the first event leads to the download of its asset.
pub proof fn due_releases_are_downloaded(
    job: Job,
    e: Event,
    tag: Seq<char>,
    latest: (u64, u64, u64, Seq<char>, Seq<char>),
    assets: Seq<GhAsset>,
)
    requires
        !job.dry_run,
        job.force || job.current is None || !version::version_at_least(job.current->0@, latest),
        describes(job, e, tag, latest, assets),
    ensures
        run(job, seq![e]) == Some(
            (
                (StateView::Fetching { latest, tag, assets }),
                seq![
                    ActionView::Ask {
                        url: "https://api.github.com/repos/"@ + job.tool.repo@
                            + "/releases/latest"@,
                    },
                    ActionView::Download {
                        url: "https://github.com/"@ + job.tool.repo@ + "/releases/download/v"@ + tag
                            + "/"@ + job.tool.spec_asset_name(tag, job.platform),
                    },
                ],
            ),
        ),
{
    let none = Seq::<Event>::empty();
    assert(run(job, none) == Some(
        (
            StateView::Asking,
            seq![ActionView::Ask { url: release::latest_release_url(job.tool.repo@) }],
        ),
    )) by {
        reveal(run);
    }
    update::order_of_versions_decides(job, tag, latest, assets);
    one_step_further(job, none, e);
    assert(none.push(e) =~= seq![e]);
    let acts = (run(job, seq![e])->0).1;
    assert(acts =~= seq![
        ActionView::Ask { url: release::latest_release_url(job.tool.repo@) },
        ActionView::Download {
            url: "https://github.com/"@ + job.tool.repo@ + "/releases/download/v"@ + tag + "/"@
                + job.tool.spec_asset_name(tag, job.platform),
        },
    ]);
}

/// A downloaded asset is unpacked at once where the release has no checksum file for
/// it, and otherwise only behind the download of that file, where it speaks for the
/// asset; where it does not, the update ends and tells both digests.
pub proof fn assets_are_checked_before_they_are_unpacked(
    job: Job,
    events: Seq<Event>,
    latest: (u64, u64, u64, Seq<char>, Seq<char>),
    tag: Seq<char>,
    assets: Seq<GhAsset>,
    asset: Vec<u8>,
    checksums: Vec<u8>,
)
    requires
        run(job, events) is Some,
        (run(job, events)->0).0 == (StateView::Fetching { latest, tag, assets }),
    ensures
        ({
            let name = job.tool.spec_asset_name(tag, job.platform);
            let acts = (run(job, events)->0).1;
            let one = events.push(Event::Body(Ok(asset)));
            let two = one.push(Event::Body(Ok(checksums)));
            let unpacked = update::unpacked(job, latest, tag, asset@);
            match checksum::checksum_file(assets, name) {
                None => run(job, one) == Some((unpacked.0, acts.push(unpacked.1))),
                Some(file) => {
                    let more = acts.push(ActionView::Download { url: file.browser_download_url@ });
                    &&& run(job, one) == Some(
                        (
                            (StateView::Checking {
                                latest,
                                tag,
                                asset: asset@,
                                listing: file.name@,
                            }),
                            more,
                        ),
                    )
                    &&& checksum::vouches(checksums@, name, asset@) ==> run(job, two) == Some(
                        (unpacked.0, more.push(unpacked.1)),
                    )
                    &&& !checksum::vouches(checksums@, name, asset@) ==> run(job, two) == Some(
                        (
                            StateView::Over,
                            more.push(
                                ActionView::Finish(
                                    Err(
                                        seq![
                                            "checksum mismatch for "@ + name + ": expected "@
                                                + checksum::expected_hash(
                                                text::lossy_text(checksums@),
                                                name,
                                            )->0 + ", got "@ + checksum::lower_hex(
                                                checksum::sha256(asset@),
                                            ),
                                        ],
                                    ),
                                ),
                            ),
                        ),
                    )
                },
            }
        }),
{
    let one = events.push(Event::Body(Ok(asset)));
    one_step_further(job, events, Event::Body(Ok(asset)));
    if checksum::checksum_file(assets, job.tool.spec_asset_name(tag, job.platform)) is Some {
        one_step_further(job, one, Event::Body(Ok(checksums)));
    }
}

/// Once the new executable is written, an update in which nothing fails goes all the
/// way: it is made executable; an installed one is moved aside, over what may be left
/// of an older one; the new one is moved in; the former one is removed; and the
/// versions are told. Nothing else is done.
#[verifier::rlimit(60)]
pub proof fn written_executables_are_installed(
    job: Job,
    events: Seq<Event>,
    latest: (u64, u64, u64, Seq<char>, Seq<char>),
    source: update::SourceView,
    there: bool,
)
    requires
        run(job, events) is Some,
        (run(job, events)->0).0 == (StateView::Writing { latest, source }),
    ensures
        ({
            let exe = job.tool.spec_exe_file(job.platform);
            let first = seq![
                Event::Written(Written::Done),
                Event::Tried,
                Event::Installed(there),
            ];
            let aside = if there {
                seq![Event::Tried, Event::Moved(Ok(()))]
            } else {
                seq![]
            };
            let last = seq![Event::Moved(Ok(())), Event::Tried];
            let moved = if there {
                seq![
                    ActionView::Remove { file: exe + ".old"@ },
                    ActionView::MoveAside { file: exe + ".old"@ },
                ]
            } else {
                seq![]
            };
            let result = match job.current {
                Some(v) => ResultView::Updated {
                    from: version::version_text(v@),
                    to: version::version_text(latest),
                },
                None => ResultView::Installed(version::version_text(latest)),
            };
            run(job, events + first + aside + last) == Some(
                (
                    StateView::Over,
                    (run(job, events)->0).1 + seq![
                        ActionView::MakeExecutable { file: exe + ".tmp"@ },
                        ActionView::LookForInstalled,
                    ] + moved + seq![
                        ActionView::MoveIn { file: exe + ".tmp"@ },
                        ActionView::Remove { file: exe + ".old"@ },
                        ActionView::Finish(Ok(result)),
                    ],
                ),
            )
        }),
{
    let acts = (run(job, events)->0).1;
    let e1 = events.push(Event::Written(Written::Done));
    one_step_further(job, events, Event::Written(Written::Done));
    let e2 = e1.push(Event::Tried);
    one_step_further(job, e1, Event::Tried);
    let e3 = e2.push(Event::Installed(there));
    one_step_further(job, e2, Event::Installed(there));
    let e5 = if there {
        one_step_further(job, e3, Event::Tried);
        one_step_further(job, e3.push(Event::Tried), Event::Moved(Ok(())));
        e3.push(Event::Tried).push(Event::Moved(Ok(())))
    } else {
        e3
    };
    one_step_further(job, e5, Event::Moved(Ok(())));
    let e6 = e5.push(Event::Moved(Ok(())));
    one_step_further(job, e6, Event::Tried);
    let e7 = e6.push(Event::Tried);
    let first = seq![Event::Written(Written::Done), Event::Tried, Event::Installed(there)];
    let last = seq![Event::Moved(Ok(())), Event::Tried];
    let exe = job.tool.spec_exe_file(job.platform);
    let begin = seq![
        ActionView::MakeExecutable { file: exe + ".tmp"@ },
        ActionView::LookForInstalled,
    ];
    let end = (run(job, e7)->0).1;
    let closing = seq![
        ActionView::MoveIn { file: exe + ".tmp"@ },
        ActionView::Remove { file: exe + ".old"@ },
        end.last(),
    ];
    if there {
        let aside = seq![Event::Tried, Event::Moved(Ok(()))];
        assert(e7 =~= events + first + aside + last);
        let moved = seq![
            ActionView::Remove { file: exe + ".old"@ },
            ActionView::MoveAside { file: exe + ".old"@ },
        ];
        assert(end =~= acts + begin + moved + closing);
    } else {
        let aside = Seq::<Event>::empty();
        assert(e7 =~= events + first + aside + last);
        assert(end =~= acts + begin + Seq::<ActionView>::empty() + closing);
    }
}

/// The event tells of a failure, with this as the last that it tells.
pub open spec fn tells_of_failure(e: Event, told: Seq<char>) -> bool {
    match e {
        Event::Body(Err(error)) => error.told().len() > 0 && error.told().last() == told,
        Event::Written(Written::NotCreated { cause, .. }) => cause@ == told,
        Event::Written(Written::NotWritten { cause, .. }) => cause@ == told,
        Event::Moved(Err(fault)) => fault.cause@ == told,
        _ => false,
    }
}

/// A failure ends an update at once, whenever it comes, and its cause is the last
/// thing that is told.
pub proof fn failures_end_the_update(job: Job, events: Seq<Event>, e: Event, told: Seq<char>)
    requires
        run(job, events) is Some,
        tells_of_failure(e, told),
        answers((run(job, events)->0).1.last(), e),
    ensures
        ({
            let after = run(job, events.push(e));
            &&& after is Some
            &&& (after->0).0 == StateView::Over
            &&& (after->0).1.last() matches ActionView::Finish(Err(messages)) && messages.len() > 0
                && messages.last() == told
        }),
{
    every_answer_is_taken(job, events, e);
    one_step_further(job, events, e);
    waits_for_last(job, events);
    match (run(job, events)->0).0 {
        StateView::Writing { source, .. } => {
            if let Event::Written(w) = e {
                assert(update::unwritten(source, w).last() == told);
            }
        },
        StateView::Spoiling { archive, entry, .. } => {
            if let Event::Written(w) = e {
                let source = update::SourceView::Entry { archive, entry };
                assert(update::unwritten(source, w).last() == told);
            }
        },
        _ => {},
    }
}

/// A file that could not be moved is told by its path, and what it was to be moved to.
pub proof fn failed_moves_are_told(
    job: Job,
    latest: (u64, u64, u64, Seq<char>, Seq<char>),
    fault: update::MoveFault,
)
    ensures
        update::next(job, (StateView::MovingAside { latest }), Event::Moved(Err(fault))) == Some(
            (
                StateView::Over,
                ActionView::Finish(
                    Err(seq!["renaming "@ + fault.path@ + " to .old"@, fault.cause@]),
                ),
            ),
        ),
        update::next(job, (StateView::MovingIn { latest }), Event::Moved(Err(fault))) == Some(
            (
                StateView::Over,
                ActionView::Finish(Err(seq!["renaming tmp to "@ + fault.path@, fault.cause@])),
            ),
        ),
{
}

/// Downloads that fail are told as they are; that of a checksum file below a message
/// that names the file.
pub proof fn failed_downloads_are_told(
    job: Job,
    latest: (u64, u64, u64, Seq<char>, Seq<char>),
    tag: Seq<char>,
    assets: Seq<GhAsset>,
    asset: Seq<u8>,
    listing: Seq<char>,
    error: crate::error::UpdateError,
)
    ensures
        update::next(
            job,
            (StateView::Fetching { latest, tag, assets }),
            Event::Body(Err(error)),
        ) == Some((StateView::Over, ActionView::Finish(Err(error.told())))),
        update::next(
            job,
            (StateView::Checking { latest, tag, asset, listing }),
            Event::Body(Err(error)),
        ) == Some(
            (
                StateView::Over,
                ActionView::Finish(
                    Err(seq!["downloading checksum file '"@ + listing + "'"@] + error.told()),
                ),
            ),
        ),
{
}

/// What could be read of a damaged executable is never installed: once it is written,
/// the update ends, and tells why no more could be read.
pub proof fn damaged_executables_are_not_installed(
    job: Job,
    archive: update::Archive,
    entry: Seq<char>,
    cause: Seq<char>,
)
    ensures
        update::next(
            job,
            (StateView::Spoiling { archive, entry, cause }),
            Event::Written(Written::Done),
        ) == Some(
            (
                StateView::Over,
                ActionView::Finish(
                    Err(
                        seq![
                            "extracting '"@ + entry + (match archive {
                                update::Archive::Zip => "' from zip"@,
                                update::Archive::TarGz => "' from tar.gz"@,
                            }),
                            "writing extracted file"@,
                            cause,
                        ],
                    ),
                ),
            ),
        ),
{
    let doing = update::extracting(archive, entry);
    assert(seq![doing] + seq!["writing extracted file"@, cause] =~= seq![
        doing,
        "writing extracted file"@,
        cause,
    ]);
}

/// The first event is the reply to the request for the latest release, and the update
/// goes on as that reply decides.
pub proof fn the_reply_decides(job: Job, reply: release::Reply)
    ensures
        ({
            let after = update::decided(job, release::fetched(job.tool.repo@, reply));
            run(job, seq![Event::Release(reply)]) == Some(
                (
                    after.0,
                    seq![
                        ActionView::Ask {
                            url: "https://api.github.com/repos/"@ + job.tool.repo@
                                + "/releases/latest"@,
                        },
                        after.1,
                    ],
                ),
            )
        }),
{
    let none = Seq::<Event>::empty();
    let e = Event::Release(reply);
    let ask = ActionView::Ask { url: release::latest_release_url(job.tool.repo@) };
    assert(run(job, none) == Some((StateView::Asking, seq![ask]))) by {
        reveal(run);
    }
    one_step_further(job, none, e);
    assert(none.push(e) =~= seq![e]);
    let after = update::decided(job, release::fetched(job.tool.repo@, reply));
    assert(seq![ask].push(after.1) =~= seq![ask, after.1]);
}

/// What could not be written ends the update, and is told by what was being written.
pub proof fn failed_writes_are_told(
    job: Job,
    latest: (u64, u64, u64, Seq<char>, Seq<char>),
    source: update::SourceView,
    archive: update::Archive,
    entry: Seq<char>,
    cause: Seq<char>,
    written: Written,
)
    requires
        !(written is Done),
    ensures
        update::next(
            job,
            (StateView::Writing { latest, source }),
            Event::Written(written),
        ) == Some((StateView::Over, ActionView::Finish(Err(update::unwritten(source, written))))),
        update::next(
            job,
            (StateView::Spoiling { archive, entry, cause }),
            Event::Written(written),
        ) == Some(
            (
                StateView::Over,
                ActionView::Finish(
                    Err(
                        update::unwritten(
                            (update::SourceView::Entry { archive, entry }),
                            written,
                        ),
                    ),
                ),
            ),
        ),
{
}

} // verus!

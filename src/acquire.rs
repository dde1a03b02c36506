use vstd::prelude::*;

use crate::error::ErrorKind;
use crate::reference::ImageReference;
use crate::registry::{
    blob_request, build_blob_request, build_manifest_request, build_token_request,
    manifest_request, token_request, LayerDescriptor, LayerView, Request, RequestView,
};

verus! {

/// Where an image pull stands.
#[derive(PartialEq, Eq, Structural, Clone, Copy, Debug)]
pub enum Phase {
    AwaitToken,
    AwaitManifest,
    /// The blob of the current layer has been requested.
    AwaitBlob,
    /// The current layer is being unpacked into the root.
    AwaitExtract,
    Done,
    Failed(ErrorKind),
}

/// What the caller reports after performing the last action.
pub enum Event {
    TokenReceived(String),
    TokenFailed,
    ManifestReceived(Vec<LayerDescriptor>),
    ManifestFailed,
    BlobReceived,
    BlobFailed,
    LayerExtracted,
    ExtractionFailed,
}

pub enum EventView {
    TokenReceived(Seq<char>),
    TokenFailed,
    ManifestReceived(Seq<LayerView>),
    ManifestFailed,
    BlobReceived,
    BlobFailed,
    LayerExtracted,
    ExtractionFailed,
}

impl View for Event {
    type V = EventView;

    open spec fn view(&self) -> EventView {
        match self {
            Event::TokenReceived(t) => EventView::TokenReceived(t@),
            Event::TokenFailed => EventView::TokenFailed,
            Event::ManifestReceived(ls) => EventView::ManifestReceived(layer_views(ls@)),
            Event::ManifestFailed => EventView::ManifestFailed,
            Event::BlobReceived => EventView::BlobReceived,
            Event::BlobFailed => EventView::BlobFailed,
            Event::LayerExtracted => EventView::LayerExtracted,
            Event::ExtractionFailed => EventView::ExtractionFailed,
        }
    }
}

/// What the caller is to do next.
pub enum Action {
    /// Send this request and report how it went.
    Fetch(Request),
    /// Unpack the blob just fetched, the layer at this position of the
    /// manifest, into the root.
    Extract(usize),
    /// Every layer is in place.
    Finished,
    /// The pull failed; nothing more is to be done.
    Abort(ErrorKind),
    /// The event did not belong to this phase; nothing changed.
    Idle,
}

pub enum ActionView {
    Fetch(RequestView),
    Extract(nat),
    Finished,
    Abort(ErrorKind),
    Idle,
}

impl View for Action {
    type V = ActionView;

    open spec fn view(&self) -> ActionView {
        match self {
            Action::Fetch(r) => ActionView::Fetch(r@),
            Action::Extract(i) => ActionView::Extract(*i as nat),
            Action::Finished => ActionView::Finished,
            Action::Abort(e) => ActionView::Abort(*e),
            Action::Idle => ActionView::Idle,
        }
    }
}

pub open spec fn layer_views(ls: Seq<LayerDescriptor>) -> Seq<LayerView> {
    ls.map_values(|l: LayerDescriptor| l@)
}

/// The pull of one image into one root: token, manifest, then each layer's
/// blob fetched and unpacked in manifest order, one layer at a time.
pub struct Acquisition {
    pub name: String,
    pub tag: String,
    pub token: String,
    pub layers: Vec<LayerDescriptor>,
    /// The layer being fetched or unpacked.
    pub index: usize,
    pub phase: Phase,
}

pub struct AcquisitionView {
    pub name: Seq<char>,
    pub tag: Seq<char>,
    pub token: Seq<char>,
    pub layers: Seq<LayerView>,
    pub index: nat,
    pub phase: Phase,
}

impl View for Acquisition {
    type V = AcquisitionView;

    open spec fn view(&self) -> AcquisitionView {
        AcquisitionView {
            name: self.name@,
            tag: self.tag@,
            token: self.token@,
            layers: layer_views(self.layers@),
            index: self.index as nat,
            phase: self.phase,
        }
    }
}

impl AcquisitionView {
    /// The current layer exists while one is being fetched or unpacked.
    pub open spec fn wf(self) -> bool {
        &&& self.index <= self.layers.len()
        &&& (self.phase == Phase::AwaitBlob || self.phase == Phase::AwaitExtract) ==> self.index
            < self.layers.len()
    }

    pub open spec fn with_phase(self, p: Phase) -> AcquisitionView {
        AcquisitionView { phase: p, ..self }
    }
}

/// The pull right after it starts: the token has been requested.
pub open spec fn initial(name: Seq<char>, tag: Seq<char>) -> AcquisitionView {
    AcquisitionView {
        name,
        tag,
        token: Seq::empty(),
        layers: Seq::empty(),
        index: 0,
        phase: Phase::AwaitToken,
    }
}

/// One step of the pull: the new state and the action, given an event.
pub open spec fn next(s: AcquisitionView, e: EventView) -> (AcquisitionView, ActionView) {
    match (s.phase, e) {
        (Phase::AwaitToken, EventView::TokenReceived(t)) => (
            AcquisitionView { token: t, phase: Phase::AwaitManifest, ..s },
            ActionView::Fetch(manifest_request(s.name, s.tag, t)),
        ),
        (Phase::AwaitToken, EventView::TokenFailed) => (
            s.with_phase(Phase::Failed(ErrorKind::Auth)),
            ActionView::Abort(ErrorKind::Auth),
        ),
        (Phase::AwaitManifest, EventView::ManifestReceived(ls)) => if ls.len() == 0 {
            (
                AcquisitionView { layers: ls, index: 0, phase: Phase::Done, ..s },
                ActionView::Finished,
            )
        } else {
            (
                AcquisitionView { layers: ls, index: 0, phase: Phase::AwaitBlob, ..s },
                ActionView::Fetch(blob_request(s.name, ls[0], s.token)),
            )
        },
        (Phase::AwaitManifest, EventView::ManifestFailed) => (
            s.with_phase(Phase::Failed(ErrorKind::Manifest)),
            ActionView::Abort(ErrorKind::Manifest),
        ),
        (Phase::AwaitBlob, EventView::BlobReceived) => (
            s.with_phase(Phase::AwaitExtract),
            ActionView::Extract(s.index),
        ),
        (Phase::AwaitBlob, EventView::BlobFailed) => (
            s.with_phase(Phase::Failed(ErrorKind::BlobFetch)),
            ActionView::Abort(ErrorKind::BlobFetch),
        ),
        (Phase::AwaitExtract, EventView::LayerExtracted) => if s.index + 1 == s.layers.len() {
            (
                AcquisitionView { index: s.index + 1, phase: Phase::Done, ..s },
                ActionView::Finished,
            )
        } else {
            (
                AcquisitionView { index: s.index + 1, phase: Phase::AwaitBlob, ..s },
                ActionView::Fetch(blob_request(s.name, s.layers[s.index + 1 as int], s.token)),
            )
        },
        (Phase::AwaitExtract, EventView::ExtractionFailed) => (
            s.with_phase(Phase::Failed(ErrorKind::Extraction)),
            ActionView::Abort(ErrorKind::Extraction),
        ),
        _ => (s, ActionView::Idle),
    }
}

/// The actions handed out for a sequence of events.
pub open spec fn run(s: AcquisitionView, es: Seq<EventView>) -> Seq<ActionView>
    decreases es.len(),
{
    if es.len() == 0 {
        Seq::empty()
    } else {
        seq![next(s, es[0]).1] + run(next(s, es[0]).0, es.drop_first())
    }
}

impl Acquisition {
    /// Starts the pull of `reference`; the action is the token request.
    pub fn start(reference: &ImageReference) -> (r: (Acquisition, Request))
        ensures
            r.0@ == initial(reference.name@, reference.tag@),
            r.1@ == token_request(reference.name@),
    {
        let request = build_token_request(reference.name.as_str());
        let a = Acquisition {
            name: reference.name.clone(),
            tag: reference.tag.clone(),
            token: String::new(),
            layers: Vec::new(),
            index: 0,
            phase: Phase::AwaitToken,
        };
        proof {
            assert(a@.layers =~= Seq::<LayerView>::empty());
        }
        (a, request)
    }

    /// Moves the pull on by one event and says what to do next.
    pub fn step(&mut self, e: Event) -> (a: Action)
        requires
            old(self)@.wf(),
        ensures
            final(self)@.wf(),
            (final(self)@, a@) == next(old(self)@, e@),
    {
        match e {
            Event::TokenReceived(t) => {
                if self.phase == Phase::AwaitToken {
                    let req = build_manifest_request(
                        self.name.as_str(),
                        self.tag.as_str(),
                        t.as_str(),
                    );
                    self.token = t;
                    self.phase = Phase::AwaitManifest;
                    Action::Fetch(req)
                } else {
                    Action::Idle
                }
            },
            Event::TokenFailed => self.fail_in(Phase::AwaitToken, ErrorKind::Auth),
            Event::ManifestReceived(ls) => {
                if self.phase == Phase::AwaitManifest {
                    self.layers = ls;
                    self.index = 0;
                    if self.layers.len() == 0 {
                        self.phase = Phase::Done;
                        Action::Finished
                    } else {
                        self.phase = Phase::AwaitBlob;
                        Action::Fetch(
                            build_blob_request(
                                self.name.as_str(),
                                &self.layers[0],
                                self.token.as_str(),
                            ),
                        )
                    }
                } else {
                    Action::Idle
                }
            },
            Event::ManifestFailed => self.fail_in(Phase::AwaitManifest, ErrorKind::Manifest),
            Event::BlobReceived => {
                if self.phase == Phase::AwaitBlob {
                    self.phase = Phase::AwaitExtract;
                    Action::Extract(self.index)
                } else {
                    Action::Idle
                }
            },
            Event::BlobFailed => self.fail_in(Phase::AwaitBlob, ErrorKind::BlobFetch),
            Event::LayerExtracted => {
                if self.phase == Phase::AwaitExtract {
                    let count = self.layers.len();
                    self.index = self.index + 1;
                    if self.index == count {
                        self.phase = Phase::Done;
                        Action::Finished
                    } else {
                        self.phase = Phase::AwaitBlob;
                        Action::Fetch(
                            build_blob_request(
                                self.name.as_str(),
                                &self.layers[self.index],
                                self.token.as_str(),
                            ),
                        )
                    }
                } else {
                    Action::Idle
                }
            },
            Event::ExtractionFailed => self.fail_in(Phase::AwaitExtract, ErrorKind::Extraction),
        }
    }

    /// Fails the pull with `err` where it stands in `expected`; otherwise
    /// leaves it as it is.
    fn fail_in(&mut self, expected: Phase, err: ErrorKind) -> (a: Action)
        ensures
            old(self).phase == expected ==> final(self)@ == old(self)@.with_phase(
                Phase::Failed(err),
            ) && a@ == ActionView::Abort(err),
            old(self).phase != expected ==> *final(self) == *old(self) && a@ == ActionView::Idle,
    {
        if self.phase == expected {
            self.phase = Phase::Failed(err);
            Action::Abort(err)
        } else {
            Action::Idle
        }
    }

    /// The pull has ended, well or not.
    pub fn is_over(&self) -> (r: bool)
        ensures
            r == (self.phase == Phase::Done || self.phase is Failed),
    {
        match self.phase {
            Phase::Done | Phase::Failed(_) => true,
            _ => false,
        }
    }
}

/// The positions of the layers that a sequence of actions unpacks, in order.
pub open spec fn extracted(acts: Seq<ActionView>) -> Seq<nat>
    decreases acts.len(),
{
    if acts.len() == 0 {
        Seq::empty()
    } else {
        match acts[0] {
            ActionView::Extract(i) => seq![i] + extracted(acts.drop_first()),
            _ => extracted(acts.drop_first()),
        }
    }
}

/// The position of the next layer that a pull in state `s` will unpack.
pub open spec fn next_to_extract(s: AcquisitionView) -> nat {
    match s.phase {
        Phase::AwaitBlob => s.index,
        Phase::AwaitExtract => s.index + 1,
        _ => 0,
    }
}

/// Whether an action sends a request.
pub open spec fn is_fetch(a: ActionView) -> bool {
    a is Fetch
}

/// Every step keeps the state well formed.
pub proof fn lemma_next_wf(s: AcquisitionView, e: EventView)
    requires
        s.wf(),
    ensures
        next(s, e).0.wf(),
{
}

/// A pull that has ended, well or not, ignores every later event: it sends
/// nothing and unpacks nothing.
pub proof fn lemma_over_stays_idle(s: AcquisitionView, es: Seq<EventView>)
    requires
        s.phase == Phase::Done || s.phase is Failed,
    ensures
        forall|i: int| 0 <= i < run(s, es).len() ==> run(s, es)[i] == ActionView::Idle,
        run(s, es).len() == es.len(),
        extracted(run(s, es)) == Seq::<nat>::empty(),
    decreases es.len(),
{
    if es.len() > 0 {
        lemma_over_stays_idle(next(s, es[0]).0, es.drop_first());
        let r = run(s, es);
        assert(r.drop_first() =~= run(next(s, es[0]).0, es.drop_first()));
    }
}

/// A manifest that cannot be fetched or decoded aborts the pull with
/// `Manifest`, and no blob is fetched or unpacked afterwards, whatever is
/// reported later.
pub proof fn lemma_bad_manifest_fetches_no_blob(s: AcquisitionView, es: Seq<EventView>)
    requires
        s.wf(),
        s.phase == Phase::AwaitManifest,
    ensures
        run(s, seq![EventView::ManifestFailed] + es)[0] == ActionView::Abort(ErrorKind::Manifest),
        forall|i: int|
            0 <= i < run(s, seq![EventView::ManifestFailed] + es).len() ==> !is_fetch(
                #[trigger] run(s, seq![EventView::ManifestFailed] + es)[i],
            ),
        extracted(run(s, seq![EventView::ManifestFailed] + es)) == Seq::<nat>::empty(),
{
    let all = seq![EventView::ManifestFailed] + es;
    assert(all[0] == EventView::ManifestFailed);
    assert(all.drop_first() =~= es);
    let failed = next(s, EventView::ManifestFailed).0;
    lemma_over_stays_idle(failed, es);
    let r = run(s, all);
    assert(r.drop_first() =~= run(failed, es));
    assert forall|i: int| 0 <= i < r.len() implies !is_fetch(#[trigger] r[i]) by {
        if i > 0 {
            assert(r[i] == run(failed, es)[i - 1]);
        }
    }
}

/// A manifest that lists no layers completes the pull at once: nothing is
/// fetched or unpacked, and the root stays as it was made.
pub proof fn lemma_empty_manifest_finishes(s: AcquisitionView)
    requires
        s.wf(),
        s.phase == Phase::AwaitManifest,
    ensures
        next(s, EventView::ManifestReceived(Seq::empty())).1 == ActionView::Finished,
        next(s, EventView::ManifestReceived(Seq::empty())).0.phase == Phase::Done,
{
}

/// Layers are unpacked one after another in manifest order: whatever the
/// events, the positions unpacked form the run `k, k+1, k+2, ...` that starts
/// at the next layer due. A fresh pull unpacks layer 0 first, so a later
/// layer is always unpacked after every earlier one has been.
pub proof fn lemma_layers_in_order(s: AcquisitionView, es: Seq<EventView>)
    requires
        s.wf(),
    ensures
        forall|j: int|
            0 <= j < extracted(run(s, es)).len() ==> #[trigger] extracted(run(s, es))[j]
                == next_to_extract(s) + j,
    decreases es.len(),
{
    if es.len() > 0 {
        let (s2, a) = next(s, es[0]);
        lemma_next_wf(s, es[0]);
        let rest = run(s2, es.drop_first());
        let r = run(s, es);
        assert(r.drop_first() =~= rest);
        assert(r[0] == a);
        if s2.phase == Phase::Done || s2.phase is Failed {
            lemma_over_stays_idle(s2, es.drop_first());
        } else {
            lemma_layers_in_order(s2, es.drop_first());
        }
        match a {
            ActionView::Extract(i) => {
                assert(extracted(r) =~= seq![i] + extracted(rest));
                assert(next_to_extract(s2) == next_to_extract(s) + 1);
            },
            _ => {
                assert(extracted(r) =~= extracted(rest));
            },
        }
    }
}

/// A fresh pull unpacks layer 0 first, then 1, then 2, and so on.
pub proof fn lemma_fresh_pull_in_order(name: Seq<char>, tag: Seq<char>, es: Seq<EventView>)
    ensures
        forall|j: int|
            0 <= j < extracted(run(initial(name, tag), es)).len() ==> #[trigger] extracted(
                run(initial(name, tag), es),
            )[j] == j,
{
    lemma_layers_in_order(initial(name, tag), es);
}

} // verus!

//! The navigation state machine: manifest and note loading, link
//! clicks, and the staleness discipline for superseded fetches.
//!
//! The machine owns the current vault and navigation state and mutates
//! them only through [`Machine::step`]. Fetching itself happens outside:
//! `step` returns the [`Action`] the surrounding loop must perform, and
//! the loop hands each completion back as an [`Event`] tagged with the
//! epoch the action carried. The machine bumps its epoch whenever it
//! issues a fetch or discards the session, and ignores any completion
//! whose epoch is not current, so the displayed note is always the one
//! most recently asked for, whatever order completions arrive in.

use vstd::prelude::*;
use vstd::string::*;
use crate::link::{ContentAddress, ResolvedLink};
use crate::render::{html_of, render_markdown};
use crate::vault::{resolution_of, resolve, VaultDescriptor};
use crate::wikilink::{bodies_of, extract, spans_of};
use crate::link::{display_of, key_of};

verus! {

/// Why a session failed. Failure is terminal for the session; the only
/// recovery is editing the url, which starts a fresh session.
#[derive(Clone, Copy, Debug, PartialEq, Eq, Structural)]
pub enum FailReason {
    /// The manifest could not be fetched or decoded.
    ManifestUnavailable,
    /// The manifest parsed, but its root key has no entry in its table.
    RootNotFound,
    /// A note could not be fetched.
    NoteUnavailable,
}

/// The navigation state. Exactly one is active at a time.
#[derive(Debug)]
pub enum NavState {
    /// Editing the manifest url; nothing is being fetched.
    AwaitingManifestUrl { current_input: String },
    /// The manifest fetch for the current epoch is in flight.
    FetchingManifest,
    /// A note fetch for the current epoch is in flight.
    FetchingNote { target: ContentAddress },
    /// A note is shown: its raw text, its rendered markup, and one
    /// resolved link per wikilink of the markup, in order.
    Displaying { content: String, markup: String, links: Vec<ResolvedLink> },
    /// The session failed; see [`FailReason`].
    Failed { reason: FailReason },
}

/// What the surrounding loop reports to the machine.
#[allow(inconsistent_fields)]
pub enum Event {
    /// The user edited the manifest url.
    SetUrl { url: String },
    /// The user asked to load the manifest.
    Load,
    /// A manifest fetch finished: its issue epoch, and the decoded
    /// manifest, or nothing when the fetch or the decode failed.
    ManifestFetched { epoch: u64, outcome: Option<VaultDescriptor> },
    /// A note fetch finished: its issue epoch, and the note's raw text,
    /// or nothing when the fetch failed.
    NoteFetched { epoch: u64, outcome: Option<String> },
    /// The widget of the link at this position was activated.
    LinkClicked { index: usize },
}

/// What the surrounding loop must do after a step.
pub enum Action {
    /// Nothing.
    Idle,
    /// Fetch the manifest at `url` and report back with this epoch.
    FetchManifest { url: String, epoch: u64 },
    /// Fetch the note at `address` and report back with this epoch.
    FetchNote { address: ContentAddress, epoch: u64 },
}

/// The resolved-link fields as plain values: key, display text, address.
pub open spec fn link_views(links: Seq<ResolvedLink>) -> Seq<
    (Seq<char>, Seq<char>, Option<Seq<char>>),
> {
    links.map_values(|r: ResolvedLink| (r.link.key@, r.link.display_text@, r.address_view()))
}

/// What resolving one wikilink body against a table yields.
pub open spec fn resolved_body(table: Map<Seq<char>, Seq<char>>, b: Seq<char>) -> (
    Seq<char>,
    Seq<char>,
    Option<Seq<char>>,
) {
    (key_of(b), display_of(b), resolution_of(table, key_of(b)))
}

/// The resolved links that a piece of markup yields under a table: one
/// per wikilink body, in order of appearance.
pub open spec fn resolved_views_of(table: Map<Seq<char>, Seq<char>>, markup: Seq<char>) -> Seq<
    (Seq<char>, Seq<char>, Option<Seq<char>>),
> {
    bodies_of(markup).map_values(|b: Seq<char>| resolved_body(table, b))
}

/// The navigation machine; see the module description.
pub struct Machine {
    pub state: NavState,
    pub vault: Option<VaultDescriptor>,
    pub epoch: u64,
}

impl Machine {
    /// While a note is in flight or shown, the vault that resolves its
    /// links is present.
    pub open spec fn wf(&self) -> bool {
        &&& (self.state matches NavState::FetchingNote { .. } ==> self.vault is Some)
        &&& (self.state matches NavState::Displaying { .. } ==> self.vault is Some)
    }
}

/// Editing the url returns to the start from any state: the held input
/// becomes the new url, the vault is discarded, and the epoch moves on,
/// so every pending fetch is stale from here on.
pub open spec fn sets_url(pre: Machine, url: String, post: Machine, a: Action) -> bool {
    &&& (post.state matches NavState::AwaitingManifestUrl { current_input } && current_input@
        == url@)
    &&& post.vault is None
    &&& post.epoch == pre.epoch + 1
    &&& a is Idle
}

/// The load trigger: only from `AwaitingManifestUrl` does it fetch the
/// manifest, once, under a fresh epoch; from any other state it is a
/// no-op, never a fault.
pub open spec fn loads(pre: Machine, post: Machine, a: Action) -> bool {
    match pre.state {
        NavState::AwaitingManifestUrl { current_input } => {
            &&& post.state is FetchingManifest
            &&& post.vault == pre.vault
            &&& post.epoch == pre.epoch + 1
            &&& (a matches Action::FetchManifest { url, epoch } && url@ == current_input@ && epoch
                == pre.epoch + 1)
        },
        _ => post == pre && a is Idle,
    }
}

/// A manifest fetch completion. Stale completions — a different epoch,
/// or a state no longer waiting for a manifest — change nothing. A fresh
/// failure fails the session; a fresh manifest either starts the root
/// note's fetch under a new epoch or, when the root key is absent from
/// the table, fails with `RootNotFound`.
pub open spec fn manifest_steps(
    pre: Machine,
    e: u64,
    outcome: Option<VaultDescriptor>,
    post: Machine,
    a: Action,
) -> bool {
    match pre.state {
        NavState::FetchingManifest => {
            if e == pre.epoch {
                match outcome {
                    Some(v) => {
                        if v.table().contains_key(v.root@) {
                            &&& (post.state matches NavState::FetchingNote { target } && target@
                                == v.table()[v.root@])
                            &&& post.vault == Some(v)
                            &&& post.epoch == pre.epoch + 1
                            &&& (a matches Action::FetchNote { address, epoch } && address@
                                == v.table()[v.root@] && epoch == pre.epoch + 1)
                        } else {
                            &&& post.state == (NavState::Failed {
                                reason: FailReason::RootNotFound,
                            })
                            &&& post.vault == Some(v)
                            &&& post.epoch == pre.epoch
                            &&& a is Idle
                        }
                    },
                    None => {
                        &&& post.state == (NavState::Failed {
                            reason: FailReason::ManifestUnavailable,
                        })
                        &&& post.vault == pre.vault
                        &&& post.epoch == pre.epoch
                        &&& a is Idle
                    },
                }
            } else {
                post == pre && a is Idle
            }
        },
        _ => post == pre && a is Idle,
    }
}

/// A note fetch completion. Stale completions change nothing. A fresh
/// failure fails the session. Fresh text is rendered to markup; each
/// wikilink of the markup is split and resolved against the vault's
/// table, in order; and the machine displays the result. No new fetch
/// is issued, so the epoch stands.
pub open spec fn note_steps(
    pre: Machine,
    e: u64,
    outcome: Option<String>,
    post: Machine,
    a: Action,
) -> bool {
    match pre.state {
        NavState::FetchingNote { .. } => {
            if e == pre.epoch {
                match outcome {
                    Some(text) => {
                        match pre.vault {
                            Some(v) => {
                                &&& (post.state matches NavState::Displaying {
                                    content,
                                    markup,
                                    links,
                                } && content@ == text@ && markup@ == html_of(text@) && link_views(
                                    links@,
                                ) == resolved_views_of(v.table(), html_of(text@)))
                                &&& post.vault == pre.vault
                                &&& post.epoch == pre.epoch
                                &&& a is Idle
                            },
                            None => post == pre && a is Idle,
                        }
                    },
                    None => {
                        &&& post.state == (NavState::Failed {
                            reason: FailReason::NoteUnavailable,
                        })
                        &&& post.vault == pre.vault
                        &&& post.epoch == pre.epoch
                        &&& a is Idle
                    },
                }
            } else {
                post == pre && a is Idle
            }
        },
        _ => post == pre && a is Idle,
    }
}

/// A click on widget `index`. Only a shown link with an address reacts:
/// its note's fetch is issued under a fresh epoch. A click on a widget
/// without an address, or out of range, or in any other state, is inert.
pub open spec fn click_steps(pre: Machine, index: usize, post: Machine, a: Action) -> bool {
    match pre.state {
        NavState::Displaying { links, .. } => {
            if index < links@.len() {
                match links@[index as int].address {
                    Some(addr) => {
                        &&& (post.state matches NavState::FetchingNote { target } && target@
                            == addr@)
                        &&& post.vault == pre.vault
                        &&& post.epoch == pre.epoch + 1
                        &&& (a matches Action::FetchNote { address, epoch } && address@ == addr@
                            && epoch == pre.epoch + 1)
                    },
                    None => post == pre && a is Idle,
                }
            } else {
                post == pre && a is Idle
            }
        },
        _ => post == pre && a is Idle,
    }
}

/// The full transition relation of the machine: what one event does to
/// the state, the vault and the epoch, and which action it issues.
pub open spec fn steps_to(pre: Machine, ev: Event, post: Machine, a: Action) -> bool {
    match ev {
        Event::SetUrl { url } => sets_url(pre, url, post, a),
        Event::Load => loads(pre, post, a),
        Event::ManifestFetched { epoch, outcome } => manifest_steps(pre, epoch, outcome, post, a),
        Event::NoteFetched { epoch, outcome } => note_steps(pre, epoch, outcome, post, a),
        Event::LinkClicked { index } => click_steps(pre, index, post, a),
    }
}

impl Machine {
    /// A machine at the start: awaiting a manifest url, nothing loaded.
    pub fn new() -> (m: Machine)
        ensures
            m.wf(),
            m.state matches NavState::AwaitingManifestUrl { current_input } && current_input@
                == Seq::<char>::empty(),
            m.vault is None,
            m.epoch == 0,
    {
        Machine {
            state: NavState::AwaitingManifestUrl { current_input: String::new() },
            vault: None,
            epoch: 0,
        }
    }

    /// Feed one event into the machine. The returned action is what the
    /// surrounding loop must perform; every transition is as
    /// [`steps_to`] states. The epoch bound is a machine limit: one more
    /// fetch must still have a fresh tag.
    pub fn step(&mut self, ev: Event) -> (a: Action)
        requires
            old(self).wf(),
            old(self).epoch < u64::MAX,
        ensures
            final(self).wf(),
            steps_to(*old(self), ev, *final(self), a),
    {
        match ev {
            Event::SetUrl { url } => {
                self.epoch = self.epoch + 1;
                self.vault = None;
                self.state = NavState::AwaitingManifestUrl { current_input: url };
                Action::Idle
            },
            Event::Load => {
                match &self.state {
                    NavState::AwaitingManifestUrl { current_input } => {
                        let url = current_input.clone();
                        self.epoch = self.epoch + 1;
                        self.state = NavState::FetchingManifest;
                        Action::FetchManifest { url, epoch: self.epoch }
                    },
                    _ => Action::Idle,
                }
            },
            Event::ManifestFetched { epoch, outcome } => {
                let waiting = matches!(&self.state, NavState::FetchingManifest);
                if waiting && epoch == self.epoch {
                    match outcome {
                        Some(v) => {
                            let found = match v.lookup(&v.root) {
                                Some(addr) => Some(addr.duplicate()),
                                None => None,
                            };
                            match found {
                                Some(addr) => {
                                    let issued = addr.duplicate();
                                    self.vault = Some(v);
                                    self.epoch = self.epoch + 1;
                                    self.state = NavState::FetchingNote { target: addr };
                                    Action::FetchNote { address: issued, epoch: self.epoch }
                                },
                                None => {
                                    self.vault = Some(v);
                                    self.state = NavState::Failed {
                                        reason: FailReason::RootNotFound,
                                    };
                                    Action::Idle
                                },
                            }
                        },
                        None => {
                            self.state = NavState::Failed {
                                reason: FailReason::ManifestUnavailable,
                            };
                            Action::Idle
                        },
                    }
                } else {
                    Action::Idle
                }
            },
            Event::NoteFetched { epoch, outcome } => {
                let waiting = matches!(&self.state, NavState::FetchingNote { .. });
                if waiting && epoch == self.epoch {
                    match outcome {
                        Some(text) => {
                            match &self.vault {
                                Some(v) => {
                                    let markup = render_markdown(text.as_str());
                                    let links = resolve_markup(&markup, v);
                                    self.state = NavState::Displaying {
                                        content: text,
                                        markup,
                                        links,
                                    };
                                    Action::Idle
                                },
                                None => Action::Idle,
                            }
                        },
                        None => {
                            self.state = NavState::Failed { reason: FailReason::NoteUnavailable };
                            Action::Idle
                        },
                    }
                } else {
                    Action::Idle
                }
            },
            Event::LinkClicked { index } => {
                let mut chosen: Option<ContentAddress> = None;
                match &self.state {
                    NavState::Displaying { links, .. } => {
                        if index < links.len() {
                            match &links[index].address {
                                Some(addr) => {
                                    chosen = Some(addr.duplicate());
                                },
                                None => {},
                            }
                        }
                    },
                    _ => {},
                }
                match chosen {
                    Some(addr) => {
                        let issued = addr.duplicate();
                        self.epoch = self.epoch + 1;
                        self.state = NavState::FetchingNote { target: addr };
                        Action::FetchNote { address: issued, epoch: self.epoch }
                    },
                    None => Action::Idle,
                }
            },
        }
    }
}

/// Split and resolve every wikilink of `markup` against the vault's
/// table, in order of appearance.
fn resolve_markup(markup: &String, v: &VaultDescriptor) -> (links: Vec<ResolvedLink>)
    ensures
        link_views(links@) == resolved_views_of(v.table(), markup@),
{
    let spans = extract(markup.as_str());
    let mut links: Vec<ResolvedLink> = Vec::new();
    let mut k: usize = 0;
    while k < spans.len()
        invariant
            spans_of(spans@) == crate::wikilink::extract_from(markup@, 0),
            k <= spans@.len(),
            links@.len() == k,
            forall|q: int|
                0 <= q < k ==> #[trigger] link_views(links@)[q] == resolved_views_of(
                    v.table(),
                    markup@,
                )[q],
        decreases spans@.len() - k,
    {
        let ghost prev = links@;
        let parsed = crate::link::split(spans[k].body.as_str());
        let resolved = resolve(parsed, v);
        links.push(resolved);
        proof {
            assert(spans_of(spans@)[k as int] == spans@[k as int].span_view());
            assert(bodies_of(markup@)[k as int] == spans@[k as int].body@);
            assert(link_views(links@) =~= link_views(prev) + seq![
                (resolved.link.key@, resolved.link.display_text@, resolved.address_view()),
            ]);
            assert(resolved_views_of(v.table(), markup@)[k as int] == resolved_body(
                v.table(),
                bodies_of(markup@)[k as int],
            ));
        }
        k += 1;
    }
    proof {
        assert(link_views(links@) =~= resolved_views_of(v.table(), markup@));
    }
    links
}

/// From the start state, the load trigger always moves to fetching the
/// manifest and issues exactly one manifest fetch, tagged with the
/// machine's fresh epoch; from every other state it changes nothing.
pub proof fn lemma_load_fetches_once(pre: Machine, post: Machine, a: Action)
    requires
        steps_to(pre, Event::Load, post, a),
    ensures
        (pre.state matches NavState::AwaitingManifestUrl { .. }) ==> (post.state
            is FetchingManifest && (a matches Action::FetchManifest { epoch, .. } && epoch
            == post.epoch) && post.epoch == pre.epoch + 1),
        !(pre.state matches NavState::AwaitingManifestUrl { .. }) ==> post == pre && a is Idle,
{
}

/// A manifest whose root key is absent from its own table fails the
/// session with `RootNotFound`: a transition, never a fault.
pub proof fn lemma_missing_root_fails(pre: Machine, v: VaultDescriptor, post: Machine, a: Action)
    requires
        pre.state is FetchingManifest,
        !v.table().contains_key(v.root@),
        steps_to(pre, Event::ManifestFetched { epoch: pre.epoch, outcome: Some(v) }, post, a),
    ensures
        post.state == (NavState::Failed { reason: FailReason::RootNotFound }),
        a is Idle,
{
}

/// A displayed link carries an address exactly when its key has an
/// entry in the vault's table: one with an absent key has none, and
/// [`crate::render::bind`] gives an address-less link a widget that can
/// never activate.
pub proof fn lemma_absent_key_is_inert(
    pre: Machine,
    e: u64,
    text: String,
    post: Machine,
    a: Action,
)
    requires
        pre.state matches NavState::FetchingNote { .. },
        pre.vault is Some,
        e == pre.epoch,
        steps_to(pre, Event::NoteFetched { epoch: e, outcome: Some(text) }, post, a),
    ensures
        post.state matches NavState::Displaying { links, .. } ==> forall|q: int|
            0 <= q < links@.len() ==> ((#[trigger] links@[q]).address is Some
                <==> pre.vault->Some_0.table().contains_key(links@[q].link.key@)),
{
    match post.state {
        NavState::Displaying { links, .. } => {
            let v = pre.vault->Some_0;
            assert forall|q: int| 0 <= q < links@.len() implies ((#[trigger] links@[q]).address
                is Some <==> v.table().contains_key(links@[q].link.key@)) by {
                assert(link_views(links@)[q] == resolved_views_of(v.table(), html_of(text@))[q]);
                assert(link_views(links@)[q] == (
                    links@[q].link.key@,
                    links@[q].link.display_text@,
                    links@[q].address_view(),
                ));
                assert(link_views(links@).len() == links@.len());
                assert(resolved_views_of(v.table(), html_of(text@)).len() == bodies_of(
                    html_of(text@),
                ).len());
                let b = bodies_of(html_of(text@))[q];
                assert(resolved_views_of(v.table(), html_of(text@))[q] == resolved_body(
                    v.table(),
                    b,
                ));
            }
        },
        _ => {},
    }
}

/// The most recently issued fetch decides what is displayed. With note
/// B's fetch in flight under the current epoch, the completion of an
/// earlier, superseded fetch A changes nothing — whatever A's content —
/// and B's completion then displays B's content.
pub proof fn lemma_latest_fetch_wins(
    m0: Machine,
    m1: Machine,
    m2: Machine,
    stale_epoch: u64,
    stale_text: String,
    fresh_text: String,
    a1: Action,
    a2: Action,
)
    requires
        m0.state matches NavState::FetchingNote { .. },
        m0.vault is Some,
        stale_epoch != m0.epoch,
        steps_to(
            m0,
            Event::NoteFetched { epoch: stale_epoch, outcome: Some(stale_text) },
            m1,
            a1,
        ),
        steps_to(
            m1,
            Event::NoteFetched { epoch: m0.epoch, outcome: Some(fresh_text) },
            m2,
            a2,
        ),
    ensures
        m1 == m0,
        m2.state matches NavState::Displaying { content, .. } && content@ == fresh_text@,
{
}

} // verus!

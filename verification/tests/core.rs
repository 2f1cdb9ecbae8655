use vaultnav::{
    bind, extract, resolve, Action, ContentAddress, Event, FailReason, Machine, NavState,
    ParsedLink, Segment, VaultDescriptor,
};

fn addr(s: &str) -> ContentAddress {
    ContentAddress::new(String::from(s))
}

fn pair(k: &str, a: &str) -> (String, ContentAddress) {
    (String::from(k), addr(a))
}

fn sample_vault() -> VaultDescriptor {
    VaultDescriptor::new(
        String::from("home"),
        String::from("someone"),
        vec![pair("home", "Qm123"), pair("a", "Qm-a"), pair("b", "Qm-b")],
    )
}

#[test]
fn split_without_separator_uses_body_twice() {
    let p = vaultnav::split("note");
    assert_eq!(p.key, "note");
    assert_eq!(p.display_text, "note");
}

#[test]
fn split_empty_body() {
    let p = vaultnav::split("");
    assert_eq!(p.key, "");
    assert_eq!(p.display_text, "");
}

#[test]
fn split_key_and_display() {
    let p = vaultnav::split("k|d");
    assert_eq!(p.key, "k");
    assert_eq!(p.display_text, "d");
}

#[test]
fn split_folds_extra_separators_into_display() {
    let p = vaultnav::split("a|b|c");
    assert_eq!(p.key, "a");
    assert_eq!(p.display_text, "b|c");
}

#[test]
fn extract_finds_pairs_in_order() {
    let spans = extract("x [[a]] y [[b|c]] z");
    assert_eq!(spans.len(), 2);
    assert_eq!(spans[0].body, "a");
    assert_eq!(spans[0].start, 2);
    assert_eq!(spans[0].end, 7);
    assert_eq!(spans[1].body, "b|c");
    assert_eq!(spans[1].start, 10);
    assert_eq!(spans[1].end, 17);
}

#[test]
fn extract_allows_empty_body() {
    let spans = extract("[[]]");
    assert_eq!(spans.len(), 1);
    assert_eq!(spans[0].body, "");
    assert_eq!(spans[0].start, 0);
    assert_eq!(spans[0].end, 4);
}

#[test]
fn extract_ignores_unclosed_pair() {
    let spans = extract("an [[unclosed link");
    assert_eq!(spans.len(), 0);
}

#[test]
fn extract_is_non_greedy() {
    let spans = extract("[[a]]b]]");
    assert_eq!(spans.len(), 1);
    assert_eq!(spans[0].body, "a");
}

#[test]
fn extract_body_never_spans_lines() {
    let spans = extract("[[a\nb]] [[c]]");
    assert_eq!(spans.len(), 1);
    assert_eq!(spans[0].body, "c");
}

#[test]
fn extract_swallows_inner_opening_brackets() {
    let spans = extract("[[[x]]");
    assert_eq!(spans.len(), 1);
    assert_eq!(spans[0].body, "[x");
}

#[test]
fn extract_of_empty_markup_is_empty() {
    assert_eq!(extract("").len(), 0);
}

#[test]
fn bind_without_links_keeps_markup_whole() {
    let links = Vec::new();
    let segments = bind("plain markup, no links", &links);
    assert_eq!(segments.len(), 1);
    match &segments[0] {
        Segment::Text { markup } => assert_eq!(markup, "plain markup, no links"),
        _ => panic!("markup without links must stay one text segment"),
    }
}

#[test]
fn resolve_present_key() {
    let v = sample_vault();
    let r = resolve(
        ParsedLink { display_text: String::from("Home"), key: String::from("home") },
        &v,
    );
    assert_eq!(r.link.display_text, "Home");
    assert_eq!(r.link.key, "home");
    assert_eq!(r.address.as_ref().map(|a| a.as_text()), Some("Qm123"));
}

#[test]
fn resolve_absent_key_yields_no_address() {
    let v = sample_vault();
    let r = resolve(
        ParsedLink { display_text: String::from("gone"), key: String::from("gone") },
        &v,
    );
    assert!(r.address.is_none());
}

#[test]
fn lookup_duplicate_keys_last_wins() {
    let v = VaultDescriptor::new(
        String::from("k"),
        String::from(""),
        vec![pair("k", "first"), pair("k", "second")],
    );
    let key = String::from("k");
    assert_eq!(v.lookup(&key).map(|a| a.as_text()), Some("second"));
}

#[test]
fn load_fetches_manifest_once() {
    let mut m = Machine::new();
    let a = m.step(Event::SetUrl { url: String::from("http://vault") });
    assert!(matches!(a, Action::Idle));
    let a = m.step(Event::Load);
    match a {
        Action::FetchManifest { url, epoch } => {
            assert_eq!(url, "http://vault");
            assert_eq!(epoch, m.epoch);
        }
        _ => panic!("load must fetch the manifest"),
    }
    assert!(matches!(m.state, NavState::FetchingManifest));
    let epoch_before = m.epoch;
    let a = m.step(Event::Load);
    assert!(matches!(a, Action::Idle));
    assert!(matches!(m.state, NavState::FetchingManifest));
    assert_eq!(m.epoch, epoch_before);
}

fn reach_fetching_note(m: &mut Machine, vault: VaultDescriptor) -> (String, u64) {
    let a = m.step(Event::SetUrl { url: String::from("http://vault") });
    assert!(matches!(a, Action::Idle));
    let a = m.step(Event::Load);
    let manifest_epoch = match a {
        Action::FetchManifest { epoch, .. } => epoch,
        _ => panic!("load must fetch the manifest"),
    };
    let a = m.step(Event::ManifestFetched { epoch: manifest_epoch, outcome: Some(vault) });
    match a {
        Action::FetchNote { address, epoch } => (String::from(address.as_text()), epoch),
        _ => panic!("a manifest with a present root must fetch the root note"),
    }
}

#[test]
fn full_session_displays_resolved_link() {
    let mut m = Machine::new();
    let v = VaultDescriptor::new(
        String::from("home"),
        String::from(""),
        vec![pair("home", "Qm123")],
    );
    let (root_address, note_epoch) = reach_fetching_note(&mut m, v);
    assert_eq!(root_address, "Qm123");
    let a = m.step(Event::NoteFetched {
        epoch: note_epoch,
        outcome: Some(String::from("hello [[home|Home]]")),
    });
    assert!(matches!(a, Action::Idle));
    match &m.state {
        NavState::Displaying { content, markup, links } => {
            assert_eq!(content, "hello [[home|Home]]");
            assert_ne!(markup, content);
            assert!(markup.contains("hello"));
            assert_eq!(links.len(), 1);
            assert_eq!(links[0].link.display_text, "Home");
            assert_eq!(links[0].link.key, "home");
            assert_eq!(links[0].address.as_ref().map(|a| a.as_text()), Some("Qm123"));
        }
        _ => panic!("the note must be displayed"),
    }
}

#[test]
fn missing_root_fails_without_crash() {
    let mut m = Machine::new();
    m.step(Event::SetUrl { url: String::from("http://vault") });
    let a = m.step(Event::Load);
    let manifest_epoch = match a {
        Action::FetchManifest { epoch, .. } => epoch,
        _ => panic!("load must fetch the manifest"),
    };
    let v = VaultDescriptor::new(
        String::from("home"),
        String::from(""),
        vec![pair("other", "QmX")],
    );
    let a = m.step(Event::ManifestFetched { epoch: manifest_epoch, outcome: Some(v) });
    assert!(matches!(a, Action::Idle));
    match &m.state {
        NavState::Failed { reason } => assert_eq!(*reason, FailReason::RootNotFound),
        _ => panic!("a missing root must fail the session"),
    }
}

#[test]
fn failed_manifest_fetch_reports_unavailable() {
    let mut m = Machine::new();
    m.step(Event::SetUrl { url: String::from("http://vault") });
    let a = m.step(Event::Load);
    let manifest_epoch = match a {
        Action::FetchManifest { epoch, .. } => epoch,
        _ => panic!("load must fetch the manifest"),
    };
    m.step(Event::ManifestFetched { epoch: manifest_epoch, outcome: None });
    match &m.state {
        NavState::Failed { reason } => assert_eq!(*reason, FailReason::ManifestUnavailable),
        _ => panic!("a failed manifest fetch must fail the session"),
    }
}

#[test]
fn failed_note_fetch_reports_unavailable() {
    let mut m = Machine::new();
    let (_, note_epoch) = reach_fetching_note(&mut m, sample_vault());
    m.step(Event::NoteFetched { epoch: note_epoch, outcome: None });
    match &m.state {
        NavState::Failed { reason } => assert_eq!(*reason, FailReason::NoteUnavailable),
        _ => panic!("a failed note fetch must fail the session"),
    }
}

#[test]
fn stale_note_fetch_is_discarded() {
    let mut m = Machine::new();
    let (_, note_epoch) = reach_fetching_note(&mut m, sample_vault());
    let a = m.step(Event::NoteFetched {
        epoch: note_epoch + 1,
        outcome: Some(String::from("stale content")),
    });
    assert!(matches!(a, Action::Idle));
    assert!(matches!(m.state, NavState::FetchingNote { .. }));
    let a = m.step(Event::NoteFetched {
        epoch: note_epoch,
        outcome: Some(String::from("fresh content")),
    });
    assert!(matches!(a, Action::Idle));
    match &m.state {
        NavState::Displaying { content, .. } => assert_eq!(content, "fresh content"),
        _ => panic!("the fresh note must be displayed"),
    }
}

#[test]
fn superseded_session_ignores_old_note() {
    let mut m = Machine::new();
    let (_, first_epoch) = reach_fetching_note(&mut m, sample_vault());
    // The user starts over before the first note arrives.
    let (_, second_epoch) = reach_fetching_note(&mut m, sample_vault());
    assert_ne!(first_epoch, second_epoch);
    m.step(Event::NoteFetched { epoch: first_epoch, outcome: Some(String::from("old")) });
    assert!(matches!(m.state, NavState::FetchingNote { .. }));
    m.step(Event::NoteFetched { epoch: second_epoch, outcome: Some(String::from("new")) });
    match &m.state {
        NavState::Displaying { content, .. } => assert_eq!(content, "new"),
        _ => panic!("the newest session's note must be displayed"),
    }
}

#[test]
fn click_on_resolved_link_fetches_its_note() {
    let mut m = Machine::new();
    let (_, note_epoch) = reach_fetching_note(&mut m, sample_vault());
    m.step(Event::NoteFetched {
        epoch: note_epoch,
        outcome: Some(String::from("go [[a|to A]] or [[gone|nowhere]]")),
    });
    assert!(matches!(m.state, NavState::Displaying { .. }));
    // The second link has no entry, so its widget is inert.
    let a = m.step(Event::LinkClicked { index: 1 });
    assert!(matches!(a, Action::Idle));
    assert!(matches!(m.state, NavState::Displaying { .. }));
    // Out of range is inert too.
    let a = m.step(Event::LinkClicked { index: 7 });
    assert!(matches!(a, Action::Idle));
    // The first link navigates.
    let a = m.step(Event::LinkClicked { index: 0 });
    match a {
        Action::FetchNote { address, epoch } => {
            assert_eq!(address.as_text(), "Qm-a");
            assert_eq!(epoch, m.epoch);
        }
        _ => panic!("a resolved link must fetch its note"),
    }
    assert!(matches!(m.state, NavState::FetchingNote { .. }));
}

#[test]
fn editing_url_recovers_from_failure() {
    let mut m = Machine::new();
    m.step(Event::SetUrl { url: String::from("http://vault") });
    let a = m.step(Event::Load);
    let manifest_epoch = match a {
        Action::FetchManifest { epoch, .. } => epoch,
        _ => panic!("load must fetch the manifest"),
    };
    m.step(Event::ManifestFetched { epoch: manifest_epoch, outcome: None });
    assert!(matches!(m.state, NavState::Failed { .. }));
    m.step(Event::SetUrl { url: String::from("http://other") });
    match &m.state {
        NavState::AwaitingManifestUrl { current_input } => {
            assert_eq!(current_input, "http://other")
        }
        _ => panic!("editing the url must start over"),
    }
    assert!(m.vault.is_none());
}

#[test]
fn bind_marks_unresolved_links_disabled() {
    let v = sample_vault();
    let markup = "see [[a|A]] and [[gone|G]]!";
    let spans = extract(markup);
    let mut links = Vec::new();
    for s in &spans {
        links.push(resolve(vaultnav::split(&s.body), &v));
    }
    let segments = bind(markup, &links);
    assert_eq!(segments.len(), 5);
    match &segments[0] {
        Segment::Text { markup } => assert_eq!(markup, "see "),
        _ => panic!("the opening text must come first"),
    }
    match &segments[1] {
        Segment::Widget { label, target } => {
            assert_eq!(label, "A");
            assert_eq!(target.as_ref().map(|a| a.as_text()), Some("Qm-a"));
        }
        _ => panic!("the first link must be a widget"),
    }
    match &segments[2] {
        Segment::Text { markup } => assert_eq!(markup, " and "),
        _ => panic!("the middle text must be kept"),
    }
    match &segments[3] {
        Segment::Widget { label, target } => {
            assert_eq!(label, "G");
            assert!(target.is_none());
        }
        _ => panic!("the unresolved link must still be a widget"),
    }
    match &segments[4] {
        Segment::Text { markup } => assert_eq!(markup, "!"),
        _ => panic!("the closing text must come last"),
    }
}

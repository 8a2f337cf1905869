use anthill::account::{Account, MailboxInput, State};
use anthill::config::{Config, Mb};
use anthill::delta::{compute_delta, get_local_uids};
use anthill::flags::Flag;
use anthill::mailbox::{persist_plan, sync_msg, MailBox, Password};
use anthill::message::{get_remote_messages, Message, RawMessage};
use std::collections::HashSet;

fn raw(uid: Option<u32>, env: bool, id: Option<&[u8]>, flags: Vec<Flag>) -> RawMessage {
    RawMessage { uid, has_envelope: env, message_id: id.map(|b| b.to_vec()), flags }
}

fn msg(uid: u32, id: &str, flags: Vec<Flag>) -> Message {
    Message { uid, msg_id: id.to_string(), flags }
}

fn mailbox(local: &str, remote: &str) -> MailBox {
    MailBox::new(
        local.to_string(),
        remote.to_string(),
        Password::Static("pw".to_string()),
        "me".to_string(),
        "imap.example.org:993".to_string(),
        true,
    )
}

fn uids(v: &[Message]) -> Vec<u32> {
    v.iter().map(|m| m.uid).collect()
}

#[test]
fn listing_skips_incomplete_entries() {
    let listing = vec![
        raw(Some(1), true, Some(b"a"), vec![Flag::Seen]),
        raw(None, true, Some(b"x"), vec![]),
        raw(Some(3), false, None, vec![]),
        raw(Some(4), true, None, vec![]),
        raw(Some(5), true, Some(&[0xff, 0xfe]), vec![]),
        raw(Some(6), true, Some("é-id".as_bytes()), vec![Flag::Flagged]),
    ];
    let got = get_remote_messages(listing);
    assert_eq!(uids(&got), vec![1, 6]);
    assert_eq!(got[0].msg_id, "a");
    assert_eq!(got[0].flags, vec![Flag::Seen]);
    assert_eq!(got[1].msg_id, "é-id");
}

#[test]
fn delta_keeps_only_unknown_uids() {
    let remote = vec![msg(1, "a", vec![]), msg(2, "b", vec![]), msg(3, "c", vec![]), msg(7, "d", vec![])];
    let local: HashSet<u32> = [1u32, 3, 9].into_iter().collect();
    assert_eq!(uids(&compute_delta(remote, &local)), vec![2, 7]);
}

#[test]
fn delta_independent_of_order() {
    let local: HashSet<u32> = [2u32].into_iter().collect();
    let a = compute_delta(vec![msg(1, "a", vec![]), msg(2, "b", vec![]), msg(3, "c", vec![])], &local);
    let b = compute_delta(vec![msg(3, "c", vec![]), msg(1, "a", vec![]), msg(2, "b", vec![])], &local);
    let sa: HashSet<u32> = uids(&a).into_iter().collect();
    let sb: HashSet<u32> = uids(&b).into_iter().collect();
    assert_eq!(sa, sb);
    assert_eq!(sa, [1u32, 3].into_iter().collect());
}

#[test]
fn delta_of_empty_inputs() {
    let none: HashSet<u32> = HashSet::new();
    assert!(compute_delta(vec![], &none).is_empty());
    assert_eq!(uids(&compute_delta(vec![msg(5, "e", vec![])], &none)), vec![5]);
}

#[test]
fn local_index_from_names() {
    let names = vec![
        "1.2.h,U=1:2,S".to_string(),
        "3.4.h,U=22:2,".to_string(),
        "stray-file".to_string(),
        "5.6.h,U=99999999999:2,".to_string(),
        "7.8.h,U=22:2,F".to_string(),
    ];
    let got = get_local_uids(&names);
    assert_eq!(got, [1u32, 22].into_iter().collect());
    assert!(get_local_uids(&vec![]).is_empty());
}

#[test]
fn persist_seen_goes_to_cur() {
    let m = msg(10, "a", vec![Flag::Flagged, Flag::Seen]);
    let w = persist_plan(&m, Ok(Some(b"body".to_vec())), "/s/acc/inbox", 1700000000, 7, "host").unwrap();
    assert_eq!(w.path, "/s/acc/inbox/cur/1700000000.7.host,U=10:2,SF");
    assert_eq!(w.body, b"body".to_vec());
}

#[test]
fn persist_unseen_goes_to_new() {
    let m = msg(11, "b", vec![Flag::Answered]);
    let w = persist_plan(&m, Ok(Some(vec![])), "/s/acc/inbox", 5, 0, "h").unwrap();
    assert_eq!(w.path, "/s/acc/inbox/new/5.0.h,U=11:2,R");
}

#[test]
fn persist_skips_missing_body() {
    let m = msg(12, "c", vec![]);
    assert!(persist_plan(&m, Ok(None), "/s", 1, 1, "h").is_none());
    assert!(persist_plan(&m, Err("gone".to_string()), "/s", 1, 1, "h").is_none());
    assert!(sync_msg(&m, Ok(None), "/s", 1, "h").is_none());
}

#[test]
fn sync_msg_draws_random_component() {
    let m = msg(2, "b", vec![]);
    let w = sync_msg(&m, Ok(Some(b"x".to_vec())), "/s/a/INBOX", 1700000000, "host").unwrap();
    let rest = w.path.strip_prefix("/s/a/INBOX/new/1700000000.").unwrap();
    let (rnd, tail) = rest.split_once('.').unwrap();
    assert!(rnd.parse::<u16>().is_ok());
    assert_eq!(tail, "host,U=2:2,");
}

#[test]
fn mailbox_new_resolves_secret() {
    let mb = MailBox::new(
        "inbox".to_string(),
        "INBOX".to_string(),
        Password::GPG("s3cret".to_string()),
        "me".to_string(),
        "h:143".to_string(),
        false,
    );
    assert_eq!(mb.pass, "s3cret");
    assert_eq!(mb.remote, "INBOX");
    assert!(!mb.with_tls);
    assert_eq!(mb.mail_folder("/s/acc"), "/s/acc/inbox");
}

#[test]
fn mailbox_listing_failure_fails_only_its_plan() {
    let mb = mailbox("inbox", "INBOX");
    let r = mb.sync(Err("timeout".to_string()), Ok(vec![]));
    assert_eq!(r.err().unwrap(), "Error when fetching message info for mailbox INBOX: timeout");
    let r = mb.sync(Ok(vec![]), Err("cannot read cur".to_string()));
    assert_eq!(r.err().unwrap(), "cannot read cur");
}

#[test]
fn inbox_scenario() {
    let mb = mailbox("INBOX", "INBOX");
    let listing = vec![
        raw(Some(1), true, Some(b"a"), vec![Flag::Seen]),
        raw(Some(2), true, Some(b"b"), vec![]),
        raw(Some(3), false, None, vec![]),
    ];
    let names = vec!["1600000000.5.host,U=1:2,S".to_string()];
    let plan = mb.sync(Ok(listing), Ok(names)).unwrap();
    assert_eq!(uids(&plan), vec![2]);
    let w = sync_msg(&plan[0], Ok(Some(b"hello".to_vec())), "/s/a/INBOX", 1700000000, "host").unwrap();
    assert!(w.path.starts_with("/s/a/INBOX/new/"));
    assert!(w.path.ends_with("U=2:2,"));
}

#[test]
fn second_run_is_empty() {
    let mb = mailbox("INBOX", "INBOX");
    let listing = || {
        vec![
            raw(Some(1), true, Some(b"a"), vec![Flag::Seen]),
            raw(Some(2), true, Some(b"b"), vec![]),
        ]
    };
    let mut names: Vec<String> = vec![];
    let plan = mb.sync(Ok(listing()), Ok(names.clone())).unwrap();
    assert_eq!(plan.len(), 2);
    for m in plan.iter() {
        let w = sync_msg(m, Ok(Some(b"x".to_vec())), "/s", 1700000000, "host").unwrap();
        names.push(w.path.rsplit('/').next().unwrap().to_string());
    }
    let again = mb.sync(Ok(listing()), Ok(names)).unwrap();
    assert!(again.is_empty());
}

fn config() -> Config {
    Config {
        url: "imap.example.org".to_string(),
        port: 993,
        user: "me".to_string(),
        pass_cmd: "pass show mail".to_string(),
        with_tls: true,
        folder: "~/mail/$HOME".to_string(),
        mailboxes: vec![
            ("a".to_string(), Mb { local: "inbox".to_string(), remote: "INBOX".to_string() }),
            ("b".to_string(), Mb { local: "sent".to_string(), remote: "Sent".to_string() }),
        ],
    }
}

#[test]
fn account_from_config() {
    let acc = Account::new("work".to_string(), config(), "/home/u", Password::Static("pw".to_string()));
    assert_eq!(acc.store, "/home/u/mail//home/u");
    assert_eq!(acc.folder(), "/home/u/mail//home/u/work");
    assert_eq!(acc.mailboxes.len(), 2);
    assert_eq!(acc.mailboxes[0].local, "inbox");
    assert_eq!(acc.mailboxes[1].remote, "Sent");
    assert_eq!(acc.mailboxes[1].url, "imap.example.org:993");
    assert_eq!(acc.mailboxes[0].login, "me");
    assert_eq!(acc.mailboxes[0].pass, "pw");
    assert!(acc.mailboxes[0].with_tls);
}

#[test]
fn store_dirs_cover_every_mailbox() {
    let acc = Account::new("work".to_string(), config(), "/h", Password::Static("pw".to_string()));
    let mut other = config();
    other.folder = "/data".to_string();
    other.mailboxes.truncate(1);
    let acc2 = Account::new("home".to_string(), other, "/h", Password::Static("pw".to_string()));
    let state = State::new(vec![acc, acc2]);
    assert_eq!(
        state.store_dirs(),
        vec![
            "/h/mail//h/work/inbox/cur",
            "/h/mail//h/work/inbox/new",
            "/h/mail//h/work/inbox/tmp",
            "/h/mail//h/work/sent/cur",
            "/h/mail//h/work/sent/new",
            "/h/mail//h/work/sent/tmp",
            "/data/home/inbox/cur",
            "/data/home/inbox/new",
            "/data/home/inbox/tmp",
        ]
    );
}

#[test]
fn failed_listing_isolated() {
    let acc = Account::new("work".to_string(), config(), "/h", Password::Static("pw".to_string()));
    let mut other = config();
    other.mailboxes.truncate(1);
    let acc2 = Account::new("home".to_string(), other, "/h", Password::Static("pw".to_string()));
    let ok_input = || MailboxInput {
        listing: Ok(vec![raw(Some(4), true, Some(b"d"), vec![])]),
        local_names: Ok(vec![]),
    };
    let failed = MailboxInput { listing: Err("refused".to_string()), local_names: Ok(vec![]) };
    let state = State::new(vec![acc, acc2]);
    let plans = state.sync(vec![vec![failed, ok_input()], vec![ok_input()]]);
    assert!(plans[0][0].is_err());
    assert_eq!(uids(plans[0][1].as_ref().unwrap()), vec![4]);
    assert_eq!(uids(plans[1][0].as_ref().unwrap()), vec![4]);
}

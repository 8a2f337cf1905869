//! One mailbox: what a sync of it decides from the remote listing and the
//! local store, and the file that each fetched message becomes.
use vstd::prelude::*;
use std::collections::HashSet;
use crate::delta::{compute_delta, delta, get_local_uids, local_uid_set, name_views};
use crate::flags::{Flag, flag_letters, transform_flags};
use crate::maildir::{maildir_filename, maildir_name, subfolder, subfolder_of};
use crate::message::{listed, get_remote_messages, models, Message, MessageModel, RawMessage};

verus! {

/// A resolved secret, with where it came from.
pub enum Password {
    Static(String),
    GPG(String),
}

/// The secret that a `Password` holds.
pub open spec fn secret_of(p: Password) -> Seq<char> {
    match p {
        Password::Static(s) => s@,
        Password::GPG(s) => s@,
    }
}

/// A mailbox of an account: where it lives locally and remotely, and how to
/// reach the server.
pub struct MailBox {
    pub local: String,
    pub remote: String,
    /// The resolved secret.
    pub pass: String,
    pub login: String,
    /// The server endpoint, `host:port`.
    pub url: String,
    pub with_tls: bool,
}

/// The text of a failed listing of the remote folder `remote`.
pub open spec fn listing_error(remote: Seq<char>, e: Seq<char>) -> Seq<char> {
    seq!['E', 'r', 'r', 'o', 'r', ' ', 'w', 'h', 'e', 'n', ' ', 'f', 'e', 't', 'c', 'h', 'i', 'n', 'g', ' ',
        'm', 'e', 's', 's', 'a', 'g', 'e', ' ', 'i', 'n', 'f', 'o', ' ', 'f', 'o', 'r', ' ',
        'm', 'a', 'i', 'l', 'b', 'o', 'x', ' '] + remote + seq![':', ' '] + e
}

/// What the listing of a mailbox gave, as a value.
pub open spec fn listing_view(l: Result<Vec<RawMessage>, String>) -> Result<Seq<RawMessage>, Seq<char>> {
    match l {
        Ok(v) => Ok(v@),
        Err(e) => Err(e@),
    }
}

/// What the scan of a mailbox's store gave, as a value.
pub open spec fn names_view(n: Result<Vec<String>, String>) -> Result<Seq<Seq<char>>, Seq<char>> {
    match n {
        Ok(v) => Ok(name_views(v@)),
        Err(e) => Err(e@),
    }
}

/// What a sync plan is, as a value.
pub open spec fn plan_view(p: Result<Vec<Message>, String>) -> Result<Seq<MessageModel>, Seq<char>> {
    match p {
        Ok(v) => Ok(models(v@)),
        Err(e) => Err(e@),
    }
}

/// The messages that a sync of the mailbox with remote folder `remote`
/// fetches: the delta of its listing against its local index. A failed
/// listing, or a store that could not be scanned, fails this mailbox alone.
pub open spec fn mailbox_plan(
    remote: Seq<char>,
    listing: Result<Seq<RawMessage>, Seq<char>>,
    names: Result<Seq<Seq<char>>, Seq<char>>,
) -> Result<Seq<MessageModel>, Seq<char>> {
    match listing {
        Err(e) => Err(listing_error(remote, e)),
        Ok(raws) => match names {
            Err(e) => Err(e),
            Ok(ns) => Ok(delta(listed(raws), local_uid_set(ns))),
        },
    }
}

/// The path, under a mailbox's folder, of the file that message `m` is
/// written to: `{folder}/{cur|new}/{name}`.
pub open spec fn message_path(folder: Seq<char>, m: MessageModel, now: nat, rnd: nat, host: Seq<char>) -> Seq<char> {
    folder + seq!['/'] + subfolder_of(m.flags) + seq!['/'] + maildir_name(
        now,
        rnd,
        host,
        m.uid as nat,
        flag_letters(m.flags),
    )
}

/// A message carrying Seen is written under `cur` of its mailbox's folder,
/// one without it under `new`.
pub proof fn lemma_subfolder_by_seen(folder: Seq<char>, m: MessageModel, now: nat, rnd: nat, host: Seq<char>)
    ensures
        m.flags.contains(Flag::Seen) ==> message_path(folder, m, now, rnd, host).subrange(0, folder.len() + 5int)
            == folder + seq!['/', 'c', 'u', 'r', '/'],
        !m.flags.contains(Flag::Seen) ==> message_path(folder, m, now, rnd, host).subrange(0, folder.len() + 5int)
            == folder + seq!['/', 'n', 'e', 'w', '/'],
{
    let p = message_path(folder, m, now, rnd, host);
    assert(p.subrange(0, folder.len() + 5int) =~= folder + seq!['/'] + subfolder_of(m.flags) + seq!['/']);
}

/// A file to create, and the bytes to write into it.
pub struct FileWrite {
    pub path: String,
    pub body: Vec<u8>,
}

/// Relies on rand::random, which draws the random component of a file name:
/// nothing is promised of the value it returns.
pub assume_specification<T>[ rand::random::<T> ]() -> (r: T)
    where
        rand::distributions::Standard: rand::distributions::Distribution<T>,
;

impl MailBox {
    pub fn new(local: String, remote: String, password: Password, login: String, url: String, with_tls: bool) -> (r: Self)
        ensures
            r.local == local,
            r.remote == remote,
            r.pass@ == secret_of(password),
            r.login == login,
            r.url == url,
            r.with_tls == with_tls,
    {
        let pass = match password {
            Password::Static(p) => p,
            Password::GPG(p) => p,
        };
        MailBox { local, remote, pass, login, url, with_tls }
    }

    /// The folder of this mailbox under an account's store: `{store}/{local}`.
    pub fn mail_folder(&self, store: &str) -> (r: String)
        ensures
            r@ == store@ + seq!['/'] + self.local@,
    {
        let mut r = String::new();
        r.append(store);
        r.append("/");
        r.append(self.local.as_str());
        proof {
            reveal_strlit("/");
            assert(r@ =~= store@ + seq!['/'] + self.local@);
        }
        r
    }

    /// The messages that this sync fetches: the delta of the remote listing
    /// against the local index built from the store's file names. A failed
    /// listing or store scan fails this mailbox, and nothing is fetched.
    pub fn sync(&self, listing: Result<Vec<RawMessage>, String>, local_names: Result<Vec<String>, String>) -> (r: Result<Vec<Message>, String>)
        ensures
            plan_view(r) == mailbox_plan(self.remote@, listing_view(listing), names_view(local_names)),
    {
        match listing {
            Err(e) => {
                let mut msg = String::new();
                msg.append("Error when fetching message info for mailbox ");
                msg.append(self.remote.as_str());
                msg.append(": ");
                msg.append(e.as_str());
                proof {
                    reveal_strlit("Error when fetching message info for mailbox ");
                    reveal_strlit(": ");
                    assert(msg@ =~= listing_error(self.remote@, e@));
                }
                Err(msg)
            },
            Ok(raws) => match local_names {
                Err(e) => Err(e),
                Ok(names) => {
                    let messages = get_remote_messages(raws);
                    let local: HashSet<u32> = get_local_uids(&names);
                    Ok(compute_delta(messages, &local))
                },
            },
        }
    }
}

/// The file that a fetched message becomes: nothing where the fetch failed
/// or the server gave no body; else the body, under the path that the
/// message's flags, the time `now`, the random component `rnd` and the host
/// identifier give.
pub fn persist_plan(data: &Message, fetched: Result<Option<Vec<u8>>, String>, mail_folder: &str, now: u64, rnd: u16, host: &str) -> (r: Option<FileWrite>)
    ensures
        r is Some <==> fetched matches Ok(Some(_)),
        r matches Some(w) ==> fetched == Ok::<Option<Vec<u8>>, String>(Some(w.body))
            && w.path@ == message_path(mail_folder@, data@, now as nat, rnd as nat, host@),
{
    match fetched {
        Ok(Some(body)) => {
            let letters = transform_flags(&data.flags);
            let name = maildir_filename(now, rnd, host, data.uid, letters.as_str());
            let mut path = String::new();
            path.append(mail_folder);
            path.append("/");
            path.append(subfolder(&data.flags));
            path.append("/");
            path.append(name.as_str());
            proof {
                reveal_strlit("/");
                assert(path@ =~= message_path(mail_folder@, data@, now as nat, rnd as nat, host@));
            }
            Some(FileWrite { path, body })
        },
        _ => None,
    }
}

/// The file that a fetched message becomes, with a freshly drawn random
/// component: as `persist_plan` says, for some random component.
pub fn sync_msg(data: &Message, fetched: Result<Option<Vec<u8>>, String>, mail_folder: &str, now: u64, host: &str) -> (r: Option<FileWrite>)
    ensures
        r is Some <==> fetched matches Ok(Some(_)),
        r matches Some(w) ==> fetched == Ok::<Option<Vec<u8>>, String>(Some(w.body))
            && exists|rnd: u16| w.path@ == message_path(mail_folder@, data@, now as nat, rnd as nat, host@),
{
    let rnd: u16 = rand::random::<u16>();
    persist_plan(data, fetched, mail_folder, now, rnd, host)
}

} // verus!

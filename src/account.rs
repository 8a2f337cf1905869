//! Accounts and the run over all of them: which mailboxes exist, where
//! their stores live, and the plan of every mailbox, each decided from its
//! own inputs alone.
use vstd::prelude::*;
use crate::config::{Config, Mb};
use crate::mailbox::{listing_view, mailbox_plan, names_view, plan_view, secret_of, MailBox, Password};
use crate::maildir::{decimal, push_decimal};
use crate::message::{Message, MessageModel, RawMessage, reversed};

verus! {

/// `s` with every occurrence of the non-empty `pat`, taken from the left
/// without overlap, replaced by `to`.
pub open spec fn replaced(s: Seq<char>, pat: Seq<char>, to: Seq<char>) -> Seq<char>
    decreases s.len(),
{
    if s.len() == 0 || pat.len() == 0 {
        s
    } else if pat.len() <= s.len() && s.subrange(0, pat.len() as int) == pat {
        to + replaced(s.subrange(pat.len() as int, s.len() as int), pat, to)
    } else {
        seq![s[0]] + replaced(s.subrange(1, s.len() as int), pat, to)
    }
}

/// Relies on str::replace: every non-overlapping occurrence of `from`,
/// taken from the left, is replaced by `to`.
#[verifier::external_body]
fn replace_all(s: &str, from: &str, to: &str) -> (r: String)
    requires
        from@.len() > 0,
    ensures
        r@ == replaced(s@, from@, to@),
{
    s.replace(from, to)
}

/// The store root with the home directory written out: `~`, then `$HOME`,
/// replaced by `home`.
pub open spec fn expanded_store(folder: Seq<char>, home: Seq<char>) -> Seq<char> {
    replaced(replaced(folder, seq!['~'], home), seq!['$', 'H', 'O', 'M', 'E'], home)
}

/// The server endpoint `host:port`.
pub open spec fn endpoint_of(host: Seq<char>, port: u16) -> Seq<char> {
    host + seq![':'] + decimal(port as nat)
}

/// The inputs of one mailbox's sync: its remote listing and the names of
/// the files in its store.
pub struct MailboxInput {
    pub listing: Result<Vec<RawMessage>, String>,
    pub local_names: Result<Vec<String>, String>,
}

/// The plan of mailbox `mb` from its inputs.
pub open spec fn input_plan(mb: MailBox, input: MailboxInput) -> Result<Seq<MessageModel>, Seq<char>> {
    mailbox_plan(mb.remote@, listing_view(input.listing), names_view(input.local_names))
}

/// An account: its name, the root of its local store, and its mailboxes.
pub struct Account {
    pub name: String,
    pub store: String,
    pub mailboxes: Vec<MailBox>,
}

/// The whole run: every account.
pub struct State {
    pub accounts: Vec<Account>,
}

fn copy_password(p: &Password) -> (r: Password)
    ensures
        r == *p,
{
    match p {
        Password::Static(s) => Password::Static(s.clone()),
        Password::GPG(s) => Password::GPG(s.clone()),
    }
}

impl Account {
    /// The account `name` from its configuration, with the home directory
    /// `home` and the resolved `password`: one mailbox per configured
    /// mailbox, in the configuration's order, each reaching the account's
    /// server with the account's login and secret.
    pub fn new(name: String, data: Config, home: &str, password: Password) -> (r: Self)
        ensures
            r.name == name,
            r.store@ == expanded_store(data.folder@, home@),
            r.mailboxes@.len() == data.mailboxes@.len(),
            forall|i: int| 0 <= i < r.mailboxes@.len() ==> {
                let mb = #[trigger] r.mailboxes@[i];
                &&& mb.local == data.mailboxes@[i].1.local
                &&& mb.remote == data.mailboxes@[i].1.remote
                &&& mb.pass@ == secret_of(password)
                &&& mb.login@ == data.user@
                &&& mb.url@ == endpoint_of(data.url@, data.port)
                &&& mb.with_tls == data.with_tls
            },
    {
        proof {
            reveal_strlit("~");
            reveal_strlit("$HOME");
            assert("~"@ =~= seq!['~']);
            assert("$HOME"@ =~= seq!['$', 'H', 'O', 'M', 'E']);
        }
        let store0 = replace_all(data.folder.as_str(), "~", home);
        let store = replace_all(store0.as_str(), "$HOME", home);
        let mut url = String::new();
        url.append(data.url.as_str());
        url.append(":");
        push_decimal(&mut url, data.port as u64);
        proof {
            reveal_strlit(":");
            assert(url@ =~= endpoint_of(data.url@, data.port));
        }
        let ghost orig = data.mailboxes@;
        let Config { url: _, port: _, user, pass_cmd: _, with_tls, folder: _, mailboxes } = data;
        let n = mailboxes.len();
        let mut rev = reversed(mailboxes);
        let mut boxes: Vec<MailBox> = Vec::new();
        let mut i: usize = 0;
        while i < n
            invariant
                n == orig.len(),
                i <= n,
                rev@.len() == n - i,
                forall|j: int| 0 <= j < rev@.len() ==> #[trigger] rev@[j] == orig[n - 1 - j],
                boxes@.len() == i,
                forall|j: int| 0 <= j < i ==> {
                    let mb = #[trigger] boxes@[j];
                    &&& mb.local == orig[j].1.local
                    &&& mb.remote == orig[j].1.remote
                    &&& mb.pass@ == secret_of(password)
                    &&& mb.login == user
                    &&& mb.url == url
                    &&& mb.with_tls == with_tls
                },
            decreases n - i,
        {
            let (_, entry) = rev.pop().unwrap();
            let Mb { local, remote } = entry;
            let mb = MailBox::new(local, remote, copy_password(&password), user.clone(), url.clone(), with_tls);
            boxes.push(mb);
            i = i + 1;
        }
        Account { name, store, mailboxes: boxes }
    }

    /// The folder of this account under its store: `{store}/{name}`.
    pub fn folder(&self) -> (r: String)
        ensures
            r@ == self.store@ + seq!['/'] + self.name@,
    {
        let mut r = String::new();
        r.append(self.store.as_str());
        r.append("/");
        r.append(self.name.as_str());
        proof {
            reveal_strlit("/");
            assert(r@ =~= self.store@ + seq!['/'] + self.name@);
        }
        r
    }

    /// The plan of every mailbox of this account, the `i`-th from the `i`-th
    /// input and from nothing else.
    pub fn sync_plans(&self, inputs: Vec<MailboxInput>) -> (r: Vec<Result<Vec<Message>, String>>)
        requires
            inputs@.len() == self.mailboxes@.len(),
        ensures
            r@.len() == inputs@.len(),
            forall|i: int| 0 <= i < r@.len() ==> plan_view(#[trigger] r@[i]) == input_plan(self.mailboxes@[i], inputs@[i]),
    {
        let ghost orig = inputs@;
        let n = inputs.len();
        let mut rev = reversed(inputs);
        let mut r: Vec<Result<Vec<Message>, String>> = Vec::new();
        let mut i: usize = 0;
        while i < n
            invariant
                n == orig.len(),
                n == self.mailboxes@.len(),
                i <= n,
                rev@.len() == n - i,
                forall|j: int| 0 <= j < rev@.len() ==> #[trigger] rev@[j] == orig[n - 1 - j],
                r@.len() == i,
                forall|j: int| 0 <= j < i ==> plan_view(#[trigger] r@[j]) == input_plan(self.mailboxes@[j], orig[j]),
            decreases n - i,
        {
            let input = rev.pop().unwrap();
            let MailboxInput { listing, local_names } = input;
            let plan = self.mailboxes[i].sync(listing, local_names);
            r.push(plan);
            i = i + 1;
        }
        r
    }
}

/// The plans of a whole run, per account and per mailbox.
pub open spec fn run_plans(accounts: Seq<Account>, inputs: Seq<Seq<MailboxInput>>) -> Seq<Seq<Result<Seq<MessageModel>, Seq<char>>>> {
    Seq::new(accounts.len(), |a: int| Seq::new(accounts[a].mailboxes@.len(), |m: int| input_plan(accounts[a].mailboxes@[m], inputs[a][m])))
}

/// The three subfolders of the mailbox `local` under the account folder
/// `folder`: `{folder}/{local}/cur`, `.../new` and `.../tmp`.
pub open spec fn mailbox_dirs(folder: Seq<char>, local: Seq<char>) -> Seq<Seq<char>> {
    seq![
        folder + seq!['/'] + local + seq!['/', 'c', 'u', 'r'],
        folder + seq!['/'] + local + seq!['/', 'n', 'e', 'w'],
        folder + seq!['/'] + local + seq!['/', 't', 'm', 'p'],
    ]
}

/// The subfolders of the first `k` mailboxes of account `a`.
pub open spec fn account_dirs(a: Account, k: int) -> Seq<Seq<char>>
    decreases k,
{
    if k <= 0 {
        Seq::empty()
    } else {
        account_dirs(a, k - 1) + mailbox_dirs(a.store@ + seq!['/'] + a.name@, a.mailboxes@[k - 1].local@)
    }
}

/// The subfolders of every mailbox of the first `k` accounts.
pub open spec fn run_dirs(accounts: Seq<Account>, k: int) -> Seq<Seq<char>>
    decreases k,
{
    if k <= 0 {
        Seq::empty()
    } else {
        run_dirs(accounts, k - 1) + account_dirs(accounts[k - 1], accounts[k - 1].mailboxes@.len() as int)
    }
}

fn push_subfolder(r: &mut Vec<String>, base: &str, sub: &str)
    ensures
        final(r)@.len() == old(r)@.len() + 1,
        forall|j: int| 0 <= j < old(r)@.len() ==> #[trigger] final(r)@[j] == old(r)@[j],
        final(r)@[old(r)@.len() as int]@ == base@ + seq!['/'] + sub@,
{
    let mut d = String::new();
    d.append(base);
    d.append("/");
    d.append(sub);
    proof {
        reveal_strlit("/");
        assert(d@ =~= base@ + seq!['/'] + sub@);
    }
    r.push(d);
}

impl State {
    pub fn new(accounts: Vec<Account>) -> (r: Self)
        ensures
            r.accounts == accounts,
    {
        State { accounts }
    }

    /// The directories that must exist before any mailbox syncs: `cur`,
    /// `new` and `tmp` of every mailbox of every account, in order.
    pub fn store_dirs(&self) -> (r: Vec<String>)
        ensures
            r@.map_values(|s: String| s@) == run_dirs(self.accounts@, self.accounts@.len() as int),
    {
        let mut r: Vec<String> = Vec::new();
        let mut a: usize = 0;
        while a < self.accounts.len()
            invariant
                a <= self.accounts@.len(),
                r@.map_values(|s: String| s@) == run_dirs(self.accounts@, a as int),
            decreases self.accounts.len() - a,
        {
            let acct = &self.accounts[a];
            let folder = acct.folder();
            let ghost prefix = r@.map_values(|s: String| s@);
            let mut m: usize = 0;
            while m < acct.mailboxes.len()
                invariant
                    a < self.accounts@.len(),
                    acct == self.accounts@[a as int],
                    folder@ == acct.store@ + seq!['/'] + acct.name@,
                    m <= acct.mailboxes@.len(),
                    r@.map_values(|s: String| s@) == prefix + account_dirs(*acct, m as int),
                decreases acct.mailboxes.len() - m,
            {
                let ghost before = r@.map_values(|s: String| s@);
                let local = acct.mailboxes[m].local.as_str();
                let mut base = String::new();
                base.append(folder.as_str());
                base.append("/");
                base.append(local);
                proof {
                    reveal_strlit("/");
                    reveal_strlit("cur");
                    reveal_strlit("new");
                    reveal_strlit("tmp");
                    assert(base@ =~= folder@ + seq!['/'] + acct.mailboxes@[m as int].local@);
                    assert("cur"@ =~= seq!['c', 'u', 'r']);
                    assert("new"@ =~= seq!['n', 'e', 'w']);
                    assert("tmp"@ =~= seq!['t', 'm', 'p']);
                }
                let ghost r0 = r@;
                push_subfolder(&mut r, base.as_str(), "cur");
                let ghost r1 = r@;
                push_subfolder(&mut r, base.as_str(), "new");
                let ghost r2 = r@;
                push_subfolder(&mut r, base.as_str(), "tmp");
                proof {
                    let l = before.len() as int;
                    let after = r@.map_values(|s: String| s@);
                    let dirs = mailbox_dirs(folder@, acct.mailboxes@[m as int].local@);
                    assert(after.len() == l + 3);
                    assert forall|j: int| 0 <= j < l implies after[j] == before[j] by {
                        assert(r@[j] == r2[j]);
                        assert(r2[j] == r1[j]);
                        assert(r1[j] == r0[j]);
                    }
                    assert(after[l] == dirs[0]) by {
                        assert(r@[l] == r2[l]);
                        assert(r2[l] == r1[l]);
                    }
                    assert(after[l + 1] == dirs[1]) by {
                        assert(r@[l + 1] == r2[l + 1]);
                    }
                    assert(after[l + 2] == dirs[2]);
                    assert(after =~= before + mailbox_dirs(folder@, acct.mailboxes@[m as int].local@));
                    assert(prefix + account_dirs(*acct, m + 1) =~= prefix + account_dirs(*acct, m as int)
                        + mailbox_dirs(folder@, acct.mailboxes@[m as int].local@));
                }
                m = m + 1;
            }
            a = a + 1;
        }
        r
    }

    /// The plan of every mailbox of every account, each from its own inputs.
    pub fn sync(self, inputs: Vec<Vec<MailboxInput>>) -> (r: Vec<Vec<Result<Vec<Message>, String>>>)
        requires
            inputs@.len() == self.accounts@.len(),
            forall|a: int| 0 <= a < inputs@.len() ==> (#[trigger] inputs@[a])@.len() == self.accounts@[a].mailboxes@.len(),
        ensures
            r@.len() == self.accounts@.len(),
            forall|a: int| 0 <= a < r@.len() ==> (#[trigger] r@[a])@.len() == self.accounts@[a].mailboxes@.len(),
            forall|a: int, m: int| 0 <= a < r@.len() && 0 <= m < r@[a]@.len() ==>
                plan_view(#[trigger] r@[a]@[m]) == run_plans(self.accounts@, inputs@.map_values(|v: Vec<MailboxInput>| v@))[a][m],
    {
        let ghost orig = inputs@;
        let n = inputs.len();
        let mut rev = reversed(inputs);
        let mut r: Vec<Vec<Result<Vec<Message>, String>>> = Vec::new();
        let mut i: usize = 0;
        while i < n
            invariant
                n == orig.len(),
                n == self.accounts@.len(),
                forall|a: int| 0 <= a < n ==> (#[trigger] orig[a])@.len() == self.accounts@[a].mailboxes@.len(),
                i <= n,
                rev@.len() == n - i,
                forall|j: int| 0 <= j < rev@.len() ==> #[trigger] rev@[j] == orig[n - 1 - j],
                r@.len() == i,
                forall|a: int| 0 <= a < i ==> (#[trigger] r@[a])@.len() == self.accounts@[a].mailboxes@.len(),
                forall|a: int, m: int| 0 <= a < i && 0 <= m < r@[a]@.len() ==>
                    plan_view(#[trigger] r@[a]@[m]) == input_plan(self.accounts@[a].mailboxes@[m], orig[a]@[m]),
            decreases n - i,
        {
            let account_inputs = rev.pop().unwrap();
            let plans = self.accounts[i].sync_plans(account_inputs);
            r.push(plans);
            i = i + 1;
        }
        r
    }
}

/// Mailboxes are synchronised independently: when the inputs of one
/// mailbox (its listing failed, say) are all that differs between two runs,
/// every other mailbox, of the same account or of another, gets the same
/// plan in both, and one whose own listing and store scan succeeded gets a
/// plan to fetch.
pub proof fn lemma_fault_isolation(
    accounts: Seq<Account>,
    inputs: Seq<Seq<MailboxInput>>,
    other: Seq<Seq<MailboxInput>>,
    fa: int,
    fm: int,
)
    requires
        inputs.len() == accounts.len(),
        other.len() == accounts.len(),
        forall|a: int| 0 <= a < accounts.len() ==> (#[trigger] inputs[a]).len() == accounts[a].mailboxes@.len(),
        forall|a: int| 0 <= a < accounts.len() ==> (#[trigger] other[a]).len() == accounts[a].mailboxes@.len(),
        forall|a: int, m: int| 0 <= a < accounts.len() && 0 <= m < accounts[a].mailboxes@.len() && !(a == fa && m == fm)
            ==> #[trigger] other[a][m] == inputs[a][m],
    ensures
        forall|a: int, m: int| 0 <= a < accounts.len() && 0 <= m < accounts[a].mailboxes@.len() && !(a == fa && m == fm) ==> {
            &&& #[trigger] run_plans(accounts, other)[a][m] == run_plans(accounts, inputs)[a][m]
            &&& (inputs[a][m].listing is Ok && inputs[a][m].local_names is Ok) ==> run_plans(accounts, other)[a][m] is Ok
        },
{
}

} // verus!

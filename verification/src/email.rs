//! The email dispatcher's decision rules: joining the persistent queue into
//! a send list, and classifying each send outcome into the record that is
//! written back through the writer.

use vstd::prelude::*;

verus! {

/// One row of the message table: what to send and through which account.
pub struct MsgRow {
    pub from: String,
    pub to: String,
    pub title: String,
    pub body: String,
    /// 1 means HTML, anything else plain text.
    pub format: i64,
    /// Key into the account table.
    pub account: u64,
}

/// Mathematical image of a [`MsgRow`].
pub ghost struct MsgRowView {
    pub from: Seq<char>,
    pub to: Seq<char>,
    pub title: Seq<char>,
    pub body: Seq<char>,
    pub format: i64,
    pub account: u64,
}

impl View for MsgRow {
    type V = MsgRowView;

    open spec fn view(&self) -> MsgRowView {
        MsgRowView {
            from: self.from@,
            to: self.to@,
            title: self.title@,
            body: self.body@,
            format: self.format,
            account: self.account,
        }
    }
}

impl MsgRow {
    /// A fresh row with the same contents.
    pub fn dup(&self) -> (r: MsgRow)
        ensures
            r@ == self@,
    {
        MsgRow {
            from: self.from.clone(),
            to: self.to.clone(),
            title: self.title.clone(),
            body: self.body.clone(),
            format: self.format,
            account: self.account,
        }
    }

    /// Whether the body is to be sent as HTML rather than plain text.
    pub fn is_html(&self) -> (r: bool)
        ensures
            r == (self.format == 1),
    {
        self.format == 1
    }
}

/// One row of the SMTP account table.
pub struct AccountRow {
    pub server: String,
    pub username: String,
    pub password: String,
}

/// Mathematical image of an [`AccountRow`].
pub ghost struct AccountRowView {
    pub server: Seq<char>,
    pub username: Seq<char>,
    pub password: Seq<char>,
}

impl View for AccountRow {
    type V = AccountRowView;

    open spec fn view(&self) -> AccountRowView {
        AccountRowView {
            server: self.server@,
            username: self.username@,
            password: self.password@,
        }
    }
}

impl AccountRow {
    /// A fresh row with the same contents.
    pub fn dup(&self) -> (r: AccountRow)
        ensures
            r@ == self@,
    {
        AccountRow {
            server: self.server.clone(),
            username: self.username.clone(),
            password: self.password.clone(),
        }
    }
}

/// One entry of the in-memory send list a dispatch cycle works through.
pub struct SendTask {
    /// Key of the queued message.
    pub msg: u64,
    pub message: MsgRow,
    pub account: AccountRow,
}

/// Mathematical image of a [`SendTask`].
pub ghost struct SendTaskView {
    pub msg: u64,
    pub message: MsgRowView,
    pub account: AccountRowView,
}

impl View for SendTask {
    type V = SendTaskView;

    open spec fn view(&self) -> SendTaskView {
        SendTaskView { msg: self.msg, message: self.message@, account: self.account@ }
    }
}

/// The views of a send list.
pub open spec fn tasks_view(s: Seq<SendTask>) -> Seq<SendTaskView> {
    s.map_values(|t: SendTask| t@)
}

/// The first message row keyed by `id`, if any.
pub open spec fn spec_find_msg(s: Seq<(u64, MsgRow)>, id: u64) -> Option<MsgRowView>
    decreases s.len(),
{
    if s.len() == 0 {
        None
    } else if s[0].0 == id {
        Some(s[0].1@)
    } else {
        spec_find_msg(s.drop_first(), id)
    }
}

/// The first account row keyed by `id`, if any.
pub open spec fn spec_find_account(s: Seq<(u64, AccountRow)>, id: u64) -> Option<AccountRowView>
    decreases s.len(),
{
    if s.len() == 0 {
        None
    } else if s[0].0 == id {
        Some(s[0].1@)
    } else {
        spec_find_account(s.drop_first(), id)
    }
}

/// The send list a dispatch cycle builds: for each queued message key, in
/// queue order, the message row joined with its account row; entries whose
/// message or account is missing are skipped.
pub open spec fn spec_send_list(
    queue: Seq<u64>,
    msgs: Seq<(u64, MsgRow)>,
    accounts: Seq<(u64, AccountRow)>,
) -> Seq<SendTaskView>
    decreases queue.len(),
{
    if queue.len() == 0 {
        Seq::empty()
    } else {
        let front = spec_send_list(queue.drop_last(), msgs, accounts);
        match spec_find_msg(msgs, queue.last()) {
            None => front,
            Some(m) => match spec_find_account(accounts, m.account) {
                None => front,
                Some(a) => front.push(SendTaskView { msg: queue.last(), message: m, account: a }),
            },
        }
    }
}

/// Index of the first message row keyed by `id`.
fn find_msg(msgs: &Vec<(u64, MsgRow)>, id: u64) -> (r: Option<usize>)
    ensures
        r matches Some(k) ==> k < msgs@.len() && spec_find_msg(msgs@, id) == Some(
            msgs@[k as int].1@,
        ),
        r is None ==> spec_find_msg(msgs@, id) is None,
{
    let mut i: usize = 0;
    proof {
        assert(msgs@.skip(0) =~= msgs@);
    }
    while i < msgs.len()
        invariant
            i <= msgs@.len(),
            spec_find_msg(msgs@, id) == spec_find_msg(msgs@.skip(i as int), id),
        decreases msgs@.len() - i,
    {
        if msgs[i].0 == id {
            proof {
                assert(msgs@.skip(i as int)[0] == msgs@[i as int]);
            }
            return Some(i);
        }
        proof {
            assert(msgs@.skip(i as int).drop_first() =~= msgs@.skip(i as int + 1));
        }
        i = i + 1;
    }
    proof {
        assert(msgs@.skip(i as int).len() == 0);
    }
    None
}

/// Index of the first account row keyed by `id`.
fn find_account(accounts: &Vec<(u64, AccountRow)>, id: u64) -> (r: Option<usize>)
    ensures
        r matches Some(k) ==> k < accounts@.len() && spec_find_account(accounts@, id) == Some(
            accounts@[k as int].1@,
        ),
        r is None ==> spec_find_account(accounts@, id) is None,
{
    let mut i: usize = 0;
    proof {
        assert(accounts@.skip(0) =~= accounts@);
    }
    while i < accounts.len()
        invariant
            i <= accounts@.len(),
            spec_find_account(accounts@, id) == spec_find_account(accounts@.skip(i as int), id),
        decreases accounts@.len() - i,
    {
        if accounts[i].0 == id {
            proof {
                assert(accounts@.skip(i as int)[0] == accounts@[i as int]);
            }
            return Some(i);
        }
        proof {
            assert(accounts@.skip(i as int).drop_first() =~= accounts@.skip(i as int + 1));
        }
        i = i + 1;
    }
    proof {
        assert(accounts@.skip(i as int).len() == 0);
    }
    None
}

/// Build the in-memory send list for one dispatch cycle from snapshot reads
/// of the queue, message, and account tables.
pub fn build_send_list(
    queue: &Vec<u64>,
    msgs: &Vec<(u64, MsgRow)>,
    accounts: &Vec<(u64, AccountRow)>,
) -> (r: Vec<SendTask>)
    ensures
        tasks_view(r@) == spec_send_list(queue@, msgs@, accounts@),
{
    let mut r: Vec<SendTask> = Vec::new();
    let mut i: usize = 0;
    proof {
        assert(tasks_view(r@) =~= spec_send_list(queue@.take(0), msgs@, accounts@));
    }
    while i < queue.len()
        invariant
            i <= queue@.len(),
            tasks_view(r@) == spec_send_list(queue@.take(i as int), msgs@, accounts@),
        decreases queue@.len() - i,
    {
        let id = queue[i];
        proof {
            assert(queue@.take(i as int + 1).drop_last() =~= queue@.take(i as int));
            assert(queue@.take(i as int + 1).last() == queue@[i as int]);
        }
        match find_msg(msgs, id) {
            None => {},
            Some(k) => {
                match find_account(accounts, msgs[k].1.account) {
                    None => {},
                    Some(j) => {
                        let task = SendTask {
                            msg: id,
                            message: msgs[k].1.dup(),
                            account: accounts[j].1.dup(),
                        };
                        proof {
                            assert(tasks_view(r@.push(task)) =~= tasks_view(r@).push(task@));
                        }
                        r.push(task);
                    },
                }
            },
        }
        i = i + 1;
    }
    proof {
        assert(queue@.take(queue@.len() as int) =~= queue@);
    }
    r
}

/// How one send attempt ended, as the SMTP boundary reports it in plain
/// values.
pub enum SendOutcome {
    /// The transport accepted the message.
    Sent,
    /// A recipient or sender address would not parse: permanent.
    BadAddress(String),
    /// The message could not be constructed or broke the protocol: permanent.
    BadMessage(String),
    /// The transport failed to deliver; its own classification says whether
    /// the condition is transient.
    Transport { transient: bool, detail: String },
}

/// The record a dispatch cycle writes back for one attempt.  A failure
/// record carries the retry flag a later cycle obeys.
pub enum EmailRecord {
    Sent { msg: u64 },
    Failed { msg: u64, retry: bool, detail: String },
}

/// Classify one send attempt.  Malformed addresses and construction errors
/// are never retried; transport failures are retried exactly when the
/// transport calls them transient.
pub fn record_for(msg: u64, outcome: SendOutcome) -> (r: EmailRecord)
    ensures
        outcome is Sent ==> (r matches EmailRecord::Sent { msg: m } && m == msg),
        outcome matches SendOutcome::BadAddress(d) ==> (r matches EmailRecord::Failed {
            msg: m,
            retry,
            detail,
        } && m == msg && !retry && detail == d),
        outcome matches SendOutcome::BadMessage(d) ==> (r matches EmailRecord::Failed {
            msg: m,
            retry,
            detail,
        } && m == msg && !retry && detail == d),
        outcome matches SendOutcome::Transport { transient, detail: d } ==> (r
            matches EmailRecord::Failed { msg: m, retry, detail } && m == msg && retry == transient
            && detail == d),
{
    match outcome {
        SendOutcome::Sent => EmailRecord::Sent { msg },
        SendOutcome::BadAddress(d) => EmailRecord::Failed { msg, retry: false, detail: d },
        SendOutcome::BadMessage(d) => EmailRecord::Failed { msg, retry: false, detail: d },
        SendOutcome::Transport { transient, detail } => EmailRecord::Failed {
            msg,
            retry: transient,
            detail,
        },
    }
}

} // verus!

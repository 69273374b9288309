//! The per-account append-only mailbox: message logs keyed by a
//! generation-versioned namespace, with lazy creation, an ownership
//! sentinel, and O(1) bulk clear by rotating the generation.
use vstd::prelude::*;

use crate::backend::WalletInfoV;
use crate::msg::{ContractError, Env, HandleResponse, MessageResponse};
use crate::numstr::{dec_digits, dec_string};
use crate::store::{Store, StoreV};

verus! {

use vstd::string::StringExecFns;

/// One delivered message: its text and the account it came from.  The
/// first message of every log is a sentinel whose `owner` is the
/// recipient itself.
#[derive(Debug, PartialEq)]
pub struct Message {
    contents: String,
    owner: String,
}

pub struct MessageV {
    pub contents: Seq<char>,
    pub owner: Seq<char>,
}

impl View for Message {
    type V = MessageV;

    closed spec fn view(&self) -> MessageV {
        MessageV { contents: self.contents@, owner: self.owner@ }
    }
}

impl DeepView for Message {
    type V = MessageV;

    open spec fn deep_view(&self) -> MessageV {
        self.view()
    }
}

impl Clone for Message {
    fn clone(&self) -> (r: Self)
        ensures
            r@ == self@,
    {
        Message { contents: self.contents.clone(), owner: self.owner.clone() }
    }
}

impl Message {
    pub fn new(contents: String, owner: String) -> (r: Self)
        ensures
            r@ == (MessageV { contents: contents@, owner: owner@ }),
    {
        Self { contents, owner }
    }

    pub fn get_contents(&self) -> (r: &str)
        ensures
            r@ == self@.contents,
    {
        self.contents.as_str()
    }

    pub fn get_owner(&self) -> (r: &str)
        ensures
            r@ == self@.owner,
    {
        self.owner.as_str()
    }

    /// Appends this message to the recipient's active-generation log.
    pub fn store_message(&self, store: &mut Store, to: &String) -> (r: Result<(), ContractError>)
        requires
            old(store).wf(),
        ensures
            final(store).wf(),
            append_message_post(old(store)@, final(store)@, r, self@, to@),
    {
        append_message(store, self, to)
    }

    /// The length of the recipient's active-generation log, or zero when
    /// none exists.
    pub fn len(store: &Store, for_address: &String) -> (r: u32)
        requires
            store.wf(),
            store@.mailboxes.contains_key(mailbox_key(store@, for_address@))
                ==> store@.mailboxes[mailbox_key(store@, for_address@)].len() <= u32::MAX,
        ensures
            r == (if store@.mailboxes.contains_key(mailbox_key(store@, for_address@)) {
                store@.mailboxes[mailbox_key(store@, for_address@)].len() as int
            } else {
                0
            }),
    {
        let wrapped = get_msg_list_namespace(store, for_address);
        let msg_namespace = return_namespace_string(wrapped);
        match store.mailboxes.get(&msg_namespace, for_address) {
            Some(log) => {
                proof {
                    assert(log.deep_view().len() == log@.len());
                }
                log.len() as u32
            },
            None => 0,
        }
    }
}

/// The namespace of an account's active mailbox generation.
pub open spec fn msg_namespace_of(counter: int) -> Seq<char> {
    "MESSAGES_RECEIVED"@ + dec_digits(counter as nat)
}

/// The active mailbox generation of an account; an account that was
/// never initialized sits at generation zero.
pub open spec fn mailbox_gen(s: StoreV, addr: Seq<char>) -> int {
    if s.wallets.contains_key(addr) {
        s.wallets[addr].message_list_counter
    } else {
        0
    }
}

/// The key of an account's active mailbox log.
pub open spec fn mailbox_key(s: StoreV, addr: Seq<char>) -> (Seq<char>, Seq<char>) {
    (msg_namespace_of(mailbox_gen(s, addr)), addr)
}

/// The sentinel written when a sender creates a log for a recipient:
/// it is owned by the recipient, not the sender.
pub open spec fn dummy_for(to: Seq<char>) -> MessageV {
    MessageV { contents: "Dummy contents created by someone else"@, owner: to }
}

/// The sentinel an account writes into its own fresh log.
pub open spec fn placeholder_for(owner: Seq<char>) -> MessageV {
    MessageV { contents: "Placeholder contents created by you"@, owner }
}

/// What one delivery does to the store: append to the recipient's
/// active log, creating it with an ownership sentinel first if it does
/// not exist.
pub open spec fn send_message_step(
    s: StoreV,
    sender: Seq<char>,
    to: Seq<char>,
    contents: Seq<char>,
) -> StoreV {
    let k = mailbox_key(s, to);
    let m = MessageV { contents, owner: sender };
    if s.mailboxes.contains_key(k) {
        StoreV { mailboxes: s.mailboxes.insert(k, s.mailboxes[k].push(m)), ..s }
    } else {
        StoreV { mailboxes: s.mailboxes.insert(k, seq![dummy_for(to), m]), ..s }
    }
}

/// One delivery per listed account, in order.
pub open spec fn send_all_step(
    s: StoreV,
    sender: Seq<char>,
    addrs: Seq<Seq<char>>,
    contents: Seq<char>,
) -> StoreV
    decreases addrs.len(),
{
    if addrs.len() == 0 {
        s
    } else {
        send_all_step(send_message_step(s, sender, addrs.first(), contents), sender,
            addrs.drop_first(), contents)
    }
}

/// Delivery touches nothing but the mailbox region.
pub proof fn lemma_send_all_frame(s: StoreV, sender: Seq<char>, addrs: Seq<Seq<char>>, contents: Seq<char>)
    ensures
        send_all_step(s, sender, addrs, contents) == (StoreV {
            mailboxes: send_all_step(s, sender, addrs, contents).mailboxes,
            ..s
        }),
    decreases addrs.len(),
{
    if addrs.len() > 0 {
        lemma_send_all_frame(send_message_step(s, sender, addrs.first(), contents), sender,
            addrs.drop_first(), contents);
    }
}

/// What appending means: pushed onto an existing log, an error when the
/// log was never created.
pub open spec fn append_message_post(
    pre: StoreV,
    post: StoreV,
    r: Result<(), ContractError>,
    m: MessageV,
    to: Seq<char>,
) -> bool {
    let k = mailbox_key(pre, to);
    match r {
        Ok(_) => pre.mailboxes.contains_key(k) && post == (StoreV {
            mailboxes: pre.mailboxes.insert(k, pre.mailboxes[k].push(m)),
            ..pre
        }),
        Err(e) => !pre.mailboxes.contains_key(k) && post == pre && e is InvalidState,
    }
}

/// Appends a message to the recipient's active-generation log.
pub fn append_message(store: &mut Store, message: &Message, for_address: &String) -> (r: Result<
    (),
    ContractError,
>)
    requires
        old(store).wf(),
    ensures
        final(store).wf(),
        append_message_post(old(store)@, final(store)@, r, message@, for_address@),
{
    let wrapped = get_msg_list_namespace(store, for_address);
    let msg_namespace = return_namespace(wrapped)?;
    match store.mailboxes.take(&msg_namespace, for_address) {
        Some(mut log) => {
            let ghost pre_log = log.deep_view();
            log.push(message.clone());
            proof {
                assert(log.deep_view() =~= pre_log.push(message@));
            }
            store.mailboxes.insert(msg_namespace, for_address.clone(), log);
            proof {
                assert(store@.mailboxes =~= old(store)@.mailboxes.insert(
                    mailbox_key(old(store)@, for_address@),
                    old(store)@.mailboxes[mailbox_key(old(store)@, for_address@)].push(message@),
                ));
            }
            Ok(())
        },
        None => {
            proof {
                assert(store@.mailboxes =~= old(store)@.mailboxes);
            }
            Err(ContractError::InvalidState {
                msg: "Provided storage doesn't seem like an AppendStore".to_owned(),
            })
        },
    }
}

/// Creates an empty log for the account's active generation if none
/// exists; an existing log is left alone.
pub fn create_empty_collection(store: &mut Store, for_address: &String) -> (r: Result<
    HandleResponse,
    ContractError,
>)
    requires
        old(store).wf(),
    ensures
        final(store).wf(),
        r is Ok,
        final(store)@ == (if old(store)@.mailboxes.contains_key(
            mailbox_key(old(store)@, for_address@),
        ) {
            old(store)@
        } else {
            StoreV {
                mailboxes: old(store)@.mailboxes.insert(
                    mailbox_key(old(store)@, for_address@),
                    Seq::empty(),
                ),
                ..old(store)@
            }
        }),
{
    let wrapped = get_msg_list_namespace(store, for_address);
    let msg_namespace = return_namespace(wrapped)?;
    if !store.mailboxes.contains_key(&msg_namespace, for_address) {
        let log: Vec<Message> = Vec::new();
        proof {
            assert(log.deep_view() =~= Seq::<MessageV>::empty());
        }
        store.mailboxes.insert(msg_namespace, for_address.clone(), log);
    }
    Ok(HandleResponse::default())
}

/// Whether a log exists for the account's active generation.
pub fn collection_exist(store: &Store, for_address: &String) -> (r: bool)
    requires
        store.wf(),
    ensures
        r == store@.mailboxes.contains_key(mailbox_key(store@, for_address@)),
{
    let wrapped = get_msg_list_namespace(store, for_address);
    let msg_namespace = return_namespace_string(wrapped);
    store.mailboxes.contains_key(&msg_namespace, for_address)
}

/// The account a log is bound to: the owner of its sentinel message.
pub fn get_collection_owner(store: &Store, behalf: &String) -> (r: Result<String, ContractError>)
    requires
        store.wf(),
    ensures
        ({
            let k = mailbox_key(store@, behalf@);
            match r {
                Ok(owner) => store@.mailboxes.contains_key(k) && store@.mailboxes[k].len() > 0
                    && owner@ == store@.mailboxes[k][0].owner,
                Err(e) => (!store@.mailboxes.contains_key(k) || store@.mailboxes[k].len() == 0)
                    && e is InvalidState,
            }
        }),
{
    let wrapped = get_msg_list_namespace(store, behalf);
    let msg_namespace = return_namespace(wrapped)?;
    match store.mailboxes.get(&msg_namespace, behalf) {
        Some(log) => {
            if log.len() == 0 {
                return Err(ContractError::InvalidState {
                    msg: "index out of bounds".to_owned(),
                });
            }
            let message = &log[0];
            proof {
                assert(log.deep_view()[0] == log@[0].deep_view());
            }
            Ok(message.get_owner().to_owned())
        },
        None => Err(ContractError::InvalidState {
            msg: "Provided storage doesn't seem like an AppendStore".to_owned(),
        }),
    }
}

/// All messages of the account's active log; an account with no log
/// reads as empty.
pub fn get_messages(store: &Store, behalf: &String) -> (r: Result<Vec<Message>, ContractError>)
    requires
        store.wf(),
    ensures
        ({
            let k = mailbox_key(store@, behalf@);
            match r {
                Ok(msgs) => msgs.deep_view() == (if store@.mailboxes.contains_key(k) {
                    store@.mailboxes[k]
                } else {
                    Seq::<MessageV>::empty()
                }),
                Err(_) => false,
            }
        }),
{
    let wrapped = get_msg_list_namespace(store, behalf);
    let msg_namespace = return_namespace(wrapped)?;
    match store.mailboxes.get(&msg_namespace, behalf) {
        Some(log) => {
            let mut txs: Vec<Message> = Vec::new();
            let n = log.len();
            let mut i: usize = 0;
            while i < n
                invariant
                    n == log@.len(),
                    i <= n,
                    txs.deep_view() =~= log.deep_view().take(i as int),
                decreases n - i,
            {
                let ghost pre_txs = txs.deep_view();
                txs.push(log[i].clone());
                proof {
                    assert(txs.deep_view() =~= pre_txs.push(log@[i as int].deep_view()));
                    assert(log.deep_view()[i as int] == log@[i as int].deep_view());
                    assert(txs.deep_view() =~= log.deep_view().take(i as int + 1));
                }
                i += 1;
            }
            proof {
                assert(txs.deep_view() =~= log.deep_view());
            }
            Ok(txs)
        },
        None => Ok(Vec::new()),
    }
}

/// What clearing a mailbox means: step the generation counter and start
/// the new generation's log with a fresh sentinel.
pub open spec fn delete_all_step(s: StoreV, addr: Seq<char>) -> StoreV {
    let w0 = s.wallets[addr];
    let w1 = WalletInfoV { message_list_counter: w0.message_list_counter + 1, ..w0 };
    let s1 = StoreV { wallets: s.wallets.insert(addr, w1), ..s };
    let k = mailbox_key(s1, addr);
    let log0 = if s1.mailboxes.contains_key(k) {
        s1.mailboxes[k]
    } else {
        Seq::<MessageV>::empty()
    };
    StoreV { mailboxes: s1.mailboxes.insert(k, log0.push(placeholder_for(addr))), ..s1 }
}

/// The contract of bulk clear.
pub open spec fn delete_all_post(
    pre: StoreV,
    post: StoreV,
    r: Result<HandleResponse, ContractError>,
    adr: Seq<char>,
) -> bool {
    match r {
        Ok(resp) => pre.wallets.contains_key(adr) && post == delete_all_step(pre, adr)
            && resp.messages@.len() == 0 && resp.data is None,
        Err(e) => !pre.wallets.contains_key(adr) && post == pre && e is NotFound,
    }
}

/// Bulk clear by rotation: the account's mailbox generation moves
/// forward and a sentinel-only log replaces the old view, in constant
/// time however many messages had accrued.
pub fn delete_all_messages(store: &mut Store, env: &Env) -> (r: Result<
    HandleResponse,
    ContractError,
>)
    requires
        old(store).wf(),
        old(store)@.wallets.contains_key(env.sender@) ==> old(store)@.wallets[
            env.sender@
        ].message_list_counter < i32::MAX,
    ensures
        final(store).wf(),
        delete_all_post(old(store)@, final(store)@, r, env.sender@),
{
    let adr = env.sender.clone();
    let mut wallet_info = match store.wallets.get(&adr) {
        Some(w) => w.clone(),
        None => {
            return Err(ContractError::NotFound { kind: "WalletInfo".to_owned() });
        },
    };
    let new_counter = wallet_info.message_list_counter + 1;
    wallet_info.message_list_counter = new_counter;
    store.wallets.insert(adr.clone(), wallet_info);
    let _empty_list = create_empty_collection(store, &env.sender);
    let dummy_message = Message::new(
        "Placeholder contents created by you".to_owned(),
        env.sender.clone(),
    );
    let _appended_message = append_message(store, &dummy_message, &env.sender);
    proof {
        let s1 = StoreV {
            wallets: old(store)@.wallets.insert(
                env.sender@,
                WalletInfoV {
                    message_list_counter: old(store)@.wallets[env.sender@].message_list_counter
                        + 1,
                    ..old(store)@.wallets[env.sender@]
                },
            ),
            ..old(store)@
        };
        let k = mailbox_key(s1, env.sender@);
        if s1.mailboxes.contains_key(k) {
            assert(store@.mailboxes =~= s1.mailboxes.insert(
                k,
                s1.mailboxes[k].push(placeholder_for(env.sender@)),
            ));
        } else {
            assert(Seq::<MessageV>::empty().push(placeholder_for(env.sender@)) =~= seq![
                placeholder_for(env.sender@),
            ]);
            assert(store@.mailboxes =~= s1.mailboxes.insert(
                k,
                Seq::<MessageV>::empty().push(placeholder_for(env.sender@)),
            ));
        }
    }
    Ok(HandleResponse::default())
}

/// The contract of delivery: always accepted, one step on the
/// recipient's active log.
pub open spec fn send_post(
    pre: StoreV,
    post: StoreV,
    r: Result<HandleResponse, ContractError>,
    sender: Seq<char>,
    to: Seq<char>,
    contents: Seq<char>,
) -> bool {
    &&& post == send_message_step(pre, sender, to, contents)
    &&& match r {
        Ok(resp) => resp.messages@.len() == 0 && resp.data is None,
        Err(_) => false,
    }
}

/// Delivers a message; a recipient that never initialized an account
/// still receives into a lazily created log.
pub fn send_message(store: &mut Store, env: &Env, to: String, contents: &String) -> (r: Result<
    HandleResponse,
    ContractError,
>)
    requires
        old(store).wf(),
    ensures
        final(store).wf(),
        send_post(old(store)@, final(store)@, r, env.sender@, to@, contents@),
{
    let message = Message::new(contents.clone(), env.sender.clone());
    let already_init = collection_exist(store, &to);
    let dummy_message = Message::new(
        "Dummy contents created by someone else".to_owned(),
        to.clone(),
    );
    if !already_init {
        let _storage_space = create_empty_collection(store, &to);
        let _dummy_messages = append_message(store, &dummy_message, &to);
        let _saved_message = append_message(store, &message, &to);
        proof {
            let k = mailbox_key(old(store)@, to@);
            assert(Seq::<MessageV>::empty().push(dummy_for(to@)).push(
                MessageV { contents: contents@, owner: env.sender@ },
            ) =~= seq![dummy_for(to@), MessageV { contents: contents@, owner: env.sender@ }]);
            assert(store@.mailboxes =~= send_message_step(
                old(store)@,
                env.sender@,
                to@,
                contents@,
            ).mailboxes);
        }
        Ok(HandleResponse::default())
    } else {
        message.store_message(store, &to)?;
        Ok(HandleResponse::default())
    }
}

/// The contract of a mailbox query: the whole log, sentinel included,
/// and only for the account the sentinel binds the log to.
pub open spec fn query_messages_post(
    pre: StoreV,
    r: Result<MessageResponse, ContractError>,
    behalf: Seq<char>,
) -> bool {
    let k = mailbox_key(pre, behalf);
    let bound = pre.mailboxes.contains_key(k) && pre.mailboxes[k].len() > 0;
    match r {
        Ok(mr) => bound && pre.mailboxes[k][0].owner == behalf && mr.messages.deep_view()
            == pre.mailboxes[k],
        Err(e) => {
            &&& !(bound && pre.mailboxes[k][0].owner == behalf)
            &&& (e is InvalidState <==> !bound)
            &&& (e is Unauthorized <==> (bound && pre.mailboxes[k][0].owner != behalf))
        },
    }
}

/// Returns the account's messages, but only to the account the log's
/// sentinel binds it to.
pub fn query_messages(store: &Store, behalf: &String) -> (r: Result<
    MessageResponse,
    ContractError,
>)
    requires
        store.wf(),
    ensures
        query_messages_post(store@, r, behalf@),
{
    let owner = get_collection_owner(store, behalf)?;
    if owner.eq(behalf) {
        let msgs = get_messages(store, behalf)?;
        Ok(MessageResponse { messages: msgs })
    } else {
        Err(ContractError::Unauthorized { msg: "Can only query your own messages!".to_owned() })
    }
}

/// The storage namespace of the account's active mailbox generation.
pub fn get_msg_list_namespace(store: &Store, address: &String) -> (r: Result<
    String,
    ContractError,
>)
    requires
        store.wf(),
    ensures
        match r {
            Ok(ns) => ns@ == msg_namespace_of(mailbox_gen(store@, address@)),
            Err(_) => false,
        },
{
    let counter: i32 = match store.wallets.get(address) {
        Some(w) => w.message_list_counter,
        None => 0,
    };
    let mut ns = String::from_str("MESSAGES_RECEIVED");
    ns.append(dec_string(counter as u64).as_str());
    Ok(ns)
}

/// Adapts a namespace lookup into the mailbox error wording.
pub fn return_namespace(wrapped_namespace: Result<String, ContractError>) -> (r: Result<
    String,
    ContractError,
>)
    ensures
        match wrapped_namespace {
            Ok(ref ns) => r matches Ok(ref out) && out@ == ns@,
            Err(_) => r matches Err(e) && e is NotFound,
        },
{
    match wrapped_namespace {
        Ok(namespace) => Ok(namespace),
        Err(_) => Err(ContractError::NotFound {
            kind: "Unable to load namespace for your list of messages".to_owned(),
        }),
    }
}

/// Adapts a namespace lookup into a plain string, with a marker for a
/// failed lookup.
pub fn return_namespace_string(wrapped_namespace: Result<String, ContractError>) -> (r: String)
    ensures
        match wrapped_namespace {
            Ok(ref ns) => r@ == ns@,
            Err(_) => r@ == "invalid namespace"@,
        },
{
    match wrapped_namespace {
        Ok(namespace) => namespace,
        Err(_) => "invalid namespace".to_owned(),
    }
}

/// A delivery step changes only the mailbox region.
pub proof fn lemma_send_step_frame(s: StoreV, sender: Seq<char>, to: Seq<char>, contents: Seq<char>)
    ensures
        send_message_step(s, sender, to, contents) == (StoreV {
            mailboxes: send_message_step(s, sender, to, contents).mailboxes,
            ..s
        }),
{
}

/// A delivery step reads only the account records and the mailboxes,
/// so states that agree there receive identically.
pub proof fn lemma_send_step_agree(
    s1: StoreV,
    s2: StoreV,
    sender: Seq<char>,
    to: Seq<char>,
    contents: Seq<char>,
)
    requires
        s1.wallets == s2.wallets,
        s1.mailboxes == s2.mailboxes,
    ensures
        send_message_step(s1, sender, to, contents).mailboxes == send_message_step(
            s2,
            sender,
            to,
            contents,
        ).mailboxes,
{
}

/// Delivering to a list and then one more account is one more step.
pub proof fn lemma_send_all_snoc(
    s: StoreV,
    sender: Seq<char>,
    addrs: Seq<Seq<char>>,
    a: Seq<char>,
    contents: Seq<char>,
)
    ensures
        send_all_step(s, sender, addrs.push(a), contents) == send_message_step(
            send_all_step(s, sender, addrs, contents),
            sender,
            a,
            contents,
        ),
    decreases addrs.len(),
{
    let p = addrs.push(a);
    assert(p.len() > 0);
    if addrs.len() == 0 {
        assert(p.first() == a);
        assert(p.drop_first() =~= Seq::<Seq<char>>::empty());
        assert(send_all_step(s, sender, p, contents) == send_all_step(
            send_message_step(s, sender, a, contents),
            sender,
            p.drop_first(),
            contents,
        ));
        assert(send_all_step(send_message_step(s, sender, a, contents), sender, p.drop_first(),
            contents) == send_message_step(s, sender, a, contents));
        assert(send_all_step(s, sender, addrs, contents) == s);
    } else {
        assert(p.first() == addrs.first());
        assert(p.drop_first() =~= addrs.drop_first().push(a));
        let s1 = send_message_step(s, sender, addrs.first(), contents);
        assert(send_all_step(s, sender, p, contents) == send_all_step(s1, sender,
            p.drop_first(), contents));
        lemma_send_all_snoc(s1, sender, addrs.drop_first(), a, contents);
        assert(send_all_step(s1, sender, addrs.drop_first().push(a), contents)
            == send_message_step(
            send_all_step(s1, sender, addrs.drop_first(), contents),
            sender,
            a,
            contents,
        ));
        assert(send_all_step(s, sender, addrs, contents) == send_all_step(s1, sender,
            addrs.drop_first(), contents));
    }
}

} // verus!

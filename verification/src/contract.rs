//! The operation surface: contract initialization, the transaction
//! dispatcher, and the query dispatcher with its token-gated branch.
use vstd::prelude::*;

use crate::backend::{change_owner_post, create_multi_post, create_viewing_key_post,
    do_create_post, forget_me_post, grant_op_post, init_address_post, move_multi_post, move_post,
    query_file, query_file_post, query_wallet_info_post, remove_multi_post, remove_post, reset_op_post,
    try_allow_read, try_allow_write, try_change_owner, try_create_file, try_create_multi_files,
    try_create_viewing_key, try_disallow_read, try_disallow_write, try_forget_me, try_init,
    try_move_file, try_move_multi_files, try_remove_file, try_remove_multi_files, try_reset_read,
    try_reset_write, try_you_up_bro, you_up_bro_post, FileV, apply_allow_read, apply_allow_write,
    apply_disallow_read, apply_disallow_write, notify_targets};
use crate::crypto::{base64_encode, base64_of, sha256_of, sha_256, str_bytes, utf8_of};
use crate::messaging::{delete_all_post, query_messages_post, send_post};
use crate::msg::{ContractError, Env, HandleAnswer, HandleMsg, HandleResponse, InitMsg,
    InitResponse, QueryAnswer, QueryMsg};
use crate::nodes::{claim, claim_post, get_node, get_node_size, nodes_wf, pub_query_coins,
    push_node, set_node_size};
use crate::numstr::dec_digits;
use crate::state::{read_viewing_key, State, StateV};
use crate::store::{Store, StoreV};
use crate::viewing_key::{ViewingKey, VIEWING_KEY_SIZE};

verus! {

/// Writes the contract configuration: the instantiating account and the
/// seed every issued token is derived from, and an empty node list.
pub fn init(store: &mut Store, env: Env, msg: InitMsg) -> (r: Result<InitResponse, ContractError>)
    requires
        old(store).wf(),
    ensures
        final(store).wf(),
        final(store)@ == (StoreV {
            config: Some(
                StateV {
                    owner: env.sender@,
                    prng_seed: sha256_of(utf8_of(base64_of(utf8_of(msg.prng_seed@)))),
                },
            ),
            node_size: Some(0),
            ..old(store)@
        }),
        r matches Ok(resp) && resp.messages@.len() == 0,
{
    let ha = env.sender.clone();
    let encoded = base64_encode(str_bytes(msg.prng_seed.as_str()).as_slice());
    let hashed = sha_256(str_bytes(encoded.as_str()).as_slice());
    let config = State { owner: ha, prng_seed: hashed };
    set_node_size(store, 0);
    store.config = Some(config);
    Ok(InitResponse::default())
}

/// What a transaction is allowed to assume of the store: the bounds
/// that keep the generation counters, the node list and the coin
/// counters inside their machine types, and list arguments long enough
/// for the loops that index them.
pub open spec fn handle_pre(s: StoreV, env: &Env, msg: &HandleMsg) -> bool {
    match *msg {
        HandleMsg::CreateMulti {
            ref contents_list,
            ref path_list,
            ref pkey_list,
            ref skey_list,
        } => path_list@.len() >= contents_list@.len() && pkey_list@.len() >= contents_list@.len()
            && skey_list@.len() >= contents_list@.len(),
        HandleMsg::MoveMulti { ref old_path_list, ref new_path_list } => new_path_list@.len()
            >= old_path_list@.len(),
        HandleMsg::ForgetMe {  } => s.wallets.contains_key(env.sender@) ==> s.wallets[
            env.sender@
        ].counter < i32::MAX,
        HandleMsg::DeleteAllMessages {  } => s.wallets.contains_key(env.sender@) ==> s.wallets[
            env.sender@
        ].message_list_counter < i32::MAX,
        HandleMsg::InitNode { .. } => (s.node_size matches Some(size) && size < u64::MAX)
            && nodes_wf(s),
        HandleMsg::ClaimReward { ref path, ref key, ref address } => s.claims.contains_key(path@)
            && (s.claims[path@] == key@ ==> (s.coins.contains_key(address@) ==> s.coins[address@]
            < u32::MAX)),
        _ => true,
    }
}

/// Routes a transaction to its operation; each arm's meaning is the
/// named contract of that operation.
pub fn handle(store: &mut Store, env: Env, msg: HandleMsg) -> (r: Result<
    HandleResponse,
    ContractError,
>)
    requires
        old(store).wf(),
        handle_pre(old(store)@, &env, &msg),
    ensures
        final(store).wf(),
        ({
            let pre = old(store)@;
            let post = final(store)@;
            let sender = env.sender@;
            match msg {
                HandleMsg::InitAddress { ref contents, ref entropy } => init_address_post(
                    pre,
                    post,
                    r,
                    sender,
                    env.block_height,
                    env.block_time,
                    contents@,
                    entropy@,
                ),
                HandleMsg::Create { ref contents, ref path, ref pkey, ref skey } => do_create_post(
                    pre,
                    post,
                    r,
                    sender,
                    contents@,
                    path@,
                    pkey@,
                    skey@,
                ),
                HandleMsg::CreateMulti {
                    ref contents_list,
                    ref path_list,
                    ref pkey_list,
                    ref skey_list,
                } => create_multi_post(
                    pre,
                    post,
                    r,
                    sender,
                    contents_list.deep_view(),
                    path_list.deep_view(),
                    pkey_list.deep_view(),
                    skey_list.deep_view(),
                ),
                HandleMsg::Remove { ref path } => remove_post(pre, post, r, sender, path@),
                HandleMsg::RemoveMulti { ref path_list } => remove_multi_post(
                    pre,
                    post,
                    r,
                    sender,
                    path_list.deep_view(),
                ),
                HandleMsg::Move { ref old_path, ref new_path } => move_post(
                    pre,
                    post,
                    r,
                    sender,
                    old_path@,
                    new_path@,
                ),
                HandleMsg::MoveMulti { ref old_path_list, ref new_path_list } => move_multi_post(
                    pre,
                    post,
                    r,
                    sender,
                    old_path_list.deep_view(),
                    new_path_list.deep_view(),
                ),
                HandleMsg::CreateViewingKey { ref entropy, .. } => create_viewing_key_post(
                    pre,
                    post,
                    r,
                    sender,
                    env.block_height,
                    env.block_time,
                    entropy@,
                ),
                HandleMsg::AllowRead { ref path, ref message, ref address_list } => grant_op_post(
                    pre,
                    post,
                    r,
                    sender,
                    path@,
                    message@,
                    address_list.deep_view(),
                    address_list.deep_view(),
                    |f: FileV, a: Seq<char>| apply_allow_read(f, a),
                ),
                HandleMsg::DisallowRead { ref path, ref message, notify, ref address_list } =>
                    grant_op_post(
                    pre,
                    post,
                    r,
                    sender,
                    path@,
                    message@,
                    address_list.deep_view(),
                    notify_targets(notify, address_list.deep_view()),
                    |f: FileV, a: Seq<char>| apply_disallow_read(f, a),
                ),
                HandleMsg::ResetRead { ref path, ref message, notify } => reset_op_post(
                    pre,
                    post,
                    r,
                    sender,
                    path@,
                    message@,
                    notify,
                    true,
                ),
                HandleMsg::AllowWrite { ref path, ref message, ref address_list } => grant_op_post(
                    pre,
                    post,
                    r,
                    sender,
                    path@,
                    message@,
                    address_list.deep_view(),
                    address_list.deep_view(),
                    |f: FileV, a: Seq<char>| apply_allow_write(f, a),
                ),
                HandleMsg::DisallowWrite { ref path, ref message, notify, ref address_list } =>
                    grant_op_post(
                    pre,
                    post,
                    r,
                    sender,
                    path@,
                    message@,
                    address_list.deep_view(),
                    notify_targets(notify, address_list.deep_view()),
                    |f: FileV, a: Seq<char>| apply_disallow_write(f, a),
                ),
                HandleMsg::ResetWrite { ref path, ref message, notify } => reset_op_post(
                    pre,
                    post,
                    r,
                    sender,
                    path@,
                    message@,
                    notify,
                    false,
                ),
                HandleMsg::InitNode { ref ip, ref address } => post == (StoreV {
                    node_size: Some((pre.node_size.unwrap() + 1) as u64),
                    node_locs: pre.node_locs.insert(
                        dec_digits(pre.node_size.unwrap() as nat),
                        ip@,
                    ),
                    node_data: pre.node_data.insert(
                        ip@,
                        crate::nodes::NodeDataV { score: 500, secret_address: address@ },
                    ),
                    ..pre
                }) && r is Ok,
                HandleMsg::ClaimReward { ref path, ref key, ref address } => claim_post(
                    pre,
                    post,
                    r,
                    path@,
                    key@,
                    address@,
                ),
                HandleMsg::ForgetMe {  } => forget_me_post(pre, post, r, sender),
                HandleMsg::ChangeOwner { ref path, ref message, ref new_owner } =>
                    change_owner_post(pre, post, r, sender, path@, message@, new_owner@),
                HandleMsg::SendMessage { ref to, ref contents } => send_post(
                    pre,
                    post,
                    r,
                    sender,
                    to@,
                    contents@,
                ),
                HandleMsg::DeleteAllMessages {  } => delete_all_post(pre, post, r, sender),
            }
        }),
{
    match msg {
        HandleMsg::InitAddress { contents, entropy } => try_init(store, &env, contents, entropy),
        HandleMsg::Create { contents, path, pkey, skey } => try_create_file(
            store,
            &env,
            contents,
            path,
            pkey,
            skey,
        ),
        HandleMsg::CreateMulti { contents_list, path_list, pkey_list, skey_list } =>
            try_create_multi_files(store, &env, contents_list, path_list, pkey_list, skey_list),
        HandleMsg::Remove { path } => try_remove_file(store, &env, path),
        HandleMsg::RemoveMulti { path_list } => try_remove_multi_files(store, &env, path_list),
        HandleMsg::MoveMulti { old_path_list, new_path_list } => try_move_multi_files(
            store,
            &env,
            old_path_list,
            new_path_list,
        ),
        HandleMsg::Move { old_path, new_path } => try_move_file(store, &env, old_path, new_path),
        HandleMsg::CreateViewingKey { entropy, .. } => try_create_viewing_key(
            store,
            &env,
            entropy,
        ),
        HandleMsg::AllowRead { path, message, address_list } => try_allow_read(
            store,
            &env,
            path,
            message,
            address_list,
        ),
        HandleMsg::DisallowRead { path, message, notify, address_list } => try_disallow_read(
            store,
            &env,
            path,
            message,
            notify,
            address_list,
        ),
        HandleMsg::ResetRead { path, message, notify } => try_reset_read(
            store,
            &env,
            path,
            message,
            notify,
        ),
        HandleMsg::AllowWrite { path, message, address_list } => try_allow_write(
            store,
            &env,
            path,
            message,
            address_list,
        ),
        HandleMsg::DisallowWrite { path, message, notify, address_list } => try_disallow_write(
            store,
            &env,
            path,
            message,
            notify,
            address_list,
        ),
        HandleMsg::ResetWrite { path, message, notify } => try_reset_write(
            store,
            &env,
            path,
            message,
            notify,
        ),
        HandleMsg::InitNode { ip, address } => try_init_node(store, ip, address),
        HandleMsg::ClaimReward { path, key, address } => claim(store, path, key, address),
        HandleMsg::ForgetMe {  } => try_forget_me(store, &env),
        HandleMsg::ChangeOwner { path, message, new_owner } => try_change_owner(
            store,
            &env,
            path,
            message,
            new_owner,
        ),
        HandleMsg::SendMessage { to, contents } => crate::messaging::send_message(
            store,
            &env,
            to,
            &contents,
        ),
        HandleMsg::DeleteAllMessages {  } => crate::messaging::delete_all_messages(store, &env),
    }
}

/// What a query is allowed to assume of the store: a node list that was
/// set up before it is read.
pub open spec fn query_pre(s: StoreV, msg: &QueryMsg) -> bool {
    match *msg {
        QueryMsg::GetNodeIP { .. } => s.node_size is Some && nodes_wf(s),
        QueryMsg::GetNodeListSize { .. } => s.node_size is Some,
        QueryMsg::GetNodeList { .. } => s.node_size is Some && nodes_wf(s),
        _ => true,
    }
}

/// The stored token hash of `behalf` matches the presented token.
pub open spec fn vk_matches(s: StoreV, behalf: Seq<char>, key: Seq<char>) -> bool {
    s.viewing_keys.contains_key(behalf) && s.viewing_keys[behalf] == ViewingKey::hash_of(key)
}

/// The node address at an index, or the out-of-range marker.
pub open spec fn node_at(s: StoreV, i: int) -> Seq<char> {
    if i < s.node_size.unwrap() {
        s.node_locs[dec_digits(i as nat)]
    } else {
        "null"@
    }
}

/// The node list a size-limited listing returns: always the entry at
/// index zero, then the rest below the requested and the actual size.
pub open spec fn node_list_spec(s: StoreV, size: u64) -> Seq<Seq<char>> {
    let m = if size < s.node_size.unwrap() {
        size as int
    } else {
        s.node_size.unwrap() as int
    };
    if m <= 1 {
        seq![node_at(s, 0)]
    } else {
        Seq::new(m as nat, |i: int| node_at(s, i))
    }
}

/// Routes a read-only query; the three account-scoped queries pass
/// through the token gate first.
pub fn query(store: &Store, msg: QueryMsg) -> (r: Result<QueryAnswer, ContractError>)
    requires
        store.wf(),
        query_pre(store@, &msg),
    ensures
        ({
            let s = store@;
            match msg {
                QueryMsg::YouUpBro { ref address } => (r matches Ok(QueryAnswer::WalletInfo(wr))
                    && you_up_bro_post(s, Ok(wr), address@)),
                QueryMsg::GetNodeCoins { ref address } => (r matches Ok(QueryAnswer::NodeCoins(c))
                    && c == (if s.coins.contains_key(address@) {
                    s.coins[address@]
                } else {
                    0
                })),
                QueryMsg::GetNodeIP { index } => (r matches Ok(QueryAnswer::NodeIp(ref ip)) && ip@
                    == node_at(s, index as int)),
                QueryMsg::GetNodeList { size } => (r matches Ok(QueryAnswer::NodeList(ref v))
                    && v.deep_view() == node_list_spec(s, size)),
                QueryMsg::GetNodeListSize {  } => (r matches Ok(QueryAnswer::NodeListSize(sz))
                    && sz == s.node_size.unwrap()),
                QueryMsg::GetContents { ref behalf, ref path, ref key } => (if vk_matches(
                    s,
                    behalf@,
                    key@,
                ) {
                    (r matches Ok(QueryAnswer::File(resp)) && query_file_post(
                        s,
                        Ok(resp),
                        path@,
                        behalf@,
                    )) || (r matches Err(e) && query_file_post(s, Err(e), path@, behalf@))
                } else {
                    r matches Err(e) && e is NotFound
                }),
                QueryMsg::GetWalletInfo { ref behalf, ref key } => (if vk_matches(
                    s,
                    behalf@,
                    key@,
                ) {
                    (r matches Ok(QueryAnswer::WalletInfo(resp)) && query_wallet_info_post(
                        s,
                        Ok(resp),
                        behalf@,
                    )) || (r matches Err(e) && query_wallet_info_post(s, Err(e), behalf@))
                } else {
                    r matches Err(e) && e is NotFound
                }),
                QueryMsg::GetMessages { ref behalf, ref key } => (if vk_matches(s, behalf@, key@) {
                    (r matches Ok(QueryAnswer::Messages(resp)) && query_messages_post(
                        s,
                        Ok(resp),
                        behalf@,
                    )) || (r matches Err(e) && query_messages_post(s, Err(e), behalf@))
                } else {
                    r matches Err(e) && e is NotFound
                }),
            }
        }),
{
    match msg {
        QueryMsg::YouUpBro { address } => {
            let wr = try_you_up_bro(store, address)?;
            Ok(QueryAnswer::WalletInfo(wr))
        },
        QueryMsg::GetNodeCoins { address } => pub_query_coins(store, address),
        QueryMsg::GetNodeIP { index } => {
            let ip = try_get_ip(store, index);
            Ok(QueryAnswer::NodeIp(ip))
        },
        QueryMsg::GetNodeList { size } => {
            let list = try_get_top_x(store, size);
            Ok(QueryAnswer::NodeList(list))
        },
        QueryMsg::GetNodeListSize {  } => {
            let sz = try_get_node_list_size(store);
            Ok(QueryAnswer::NodeListSize(sz))
        },
        _ => authenticated_queries(store, msg),
    }
}

/// The token gate in front of the account-scoped queries: answers only
/// when some named account's stored token hash matches the presented
/// token, and checks a zero buffer when no token was ever issued so
/// both failure paths cost the same comparison.
fn authenticated_queries(store: &Store, msg: QueryMsg) -> (r: Result<QueryAnswer, ContractError>)
    requires
        store.wf(),
        msg.is_authenticated(),
    ensures
        ({
            let s = store@;
            match msg {
                QueryMsg::GetContents { ref behalf, ref path, ref key } => (if vk_matches(
                    s,
                    behalf@,
                    key@,
                ) {
                    (r matches Ok(QueryAnswer::File(resp)) && query_file_post(
                        s,
                        Ok(resp),
                        path@,
                        behalf@,
                    )) || (r matches Err(e) && query_file_post(s, Err(e), path@, behalf@))
                } else {
                    r matches Err(e) && e is NotFound
                }),
                QueryMsg::GetWalletInfo { ref behalf, ref key } => (if vk_matches(
                    s,
                    behalf@,
                    key@,
                ) {
                    (r matches Ok(QueryAnswer::WalletInfo(resp)) && query_wallet_info_post(
                        s,
                        Ok(resp),
                        behalf@,
                    )) || (r matches Err(e) && query_wallet_info_post(s, Err(e), behalf@))
                } else {
                    r matches Err(e) && e is NotFound
                }),
                QueryMsg::GetMessages { ref behalf, ref key } => (if vk_matches(s, behalf@, key@) {
                    (r matches Ok(QueryAnswer::Messages(resp)) && query_messages_post(
                        s,
                        Ok(resp),
                        behalf@,
                    )) || (r matches Err(e) && query_messages_post(s, Err(e), behalf@))
                } else {
                    r matches Err(e) && e is NotFound
                }),
                _ => false,
            }
        }),
{
    let (addresses, key) = msg.get_validation_params();
    let n = addresses.len();
    let mut i: usize = 0;
    while i < n
        invariant
            store.wf(),
            msg.is_authenticated(),
            n == addresses@.len(),
            i <= n,
            forall|j: int|
                0 <= j < i as int ==> !vk_matches(store@, #[trigger] addresses@[j]@, key@),
            n == 1,
            match msg {
                QueryMsg::GetContents { ref behalf, key: ref k, .. } => addresses@[0]@ == behalf@
                    && key@ == k@,
                QueryMsg::GetWalletInfo { ref behalf, key: ref k } => addresses@[0]@ == behalf@
                    && key@ == k@,
                QueryMsg::GetMessages { ref behalf, key: ref k } => addresses@[0]@ == behalf@
                    && key@ == k@,
                _ => false,
            },
        decreases n - i,
    {
        let address = &addresses[i];
        let expected_key = read_viewing_key(store, address);
        match expected_key {
            None => {
                // The check must cost the same whether or not a token
                // record exists, so a zero buffer stands in for one.
                let zero = [0u8; VIEWING_KEY_SIZE];
                let _ = key.check_viewing_key(zero.as_slice());
            },
            Some(expected) => {
                if key.check_viewing_key(expected.as_slice()) {
                    return (match &msg {
                        QueryMsg::GetContents { path, behalf, .. } => {
                            let resp = query_file(store, path.clone(), behalf)?;
                            Ok(QueryAnswer::File(resp))
                        },
                        QueryMsg::GetWalletInfo { behalf, .. } => {
                            let resp = crate::backend::query_wallet_info(store, behalf)?;
                            Ok(QueryAnswer::WalletInfo(resp))
                        },
                        QueryMsg::GetMessages { behalf, .. } => {
                            let resp = crate::messaging::query_messages(store, behalf)?;
                            Ok(QueryAnswer::Messages(resp))
                        },
                        _ => {
                            proof {
                                assert(false);
                            }
                            Err(ContractError::NotFound { kind: String::new() })
                        },
                    });
                }
            },
        }
        i += 1;
    }
    Err(ContractError::NotFound {
        kind: "Your viewing key does not match 'behalf' address.".to_owned(),
    })
}

fn try_init_node(store: &mut Store, ip: String, address: String) -> (r: Result<
    HandleResponse,
    ContractError,
>)
    requires
        old(store).wf(),
        old(store)@.node_size matches Some(size) && size < u64::MAX,
        nodes_wf(old(store)@),
    ensures
        final(store).wf(),
        r is Ok,
        final(store)@ == (StoreV {
            node_size: Some((old(store)@.node_size.unwrap() + 1) as u64),
            node_locs: old(store)@.node_locs.insert(
                dec_digits(old(store)@.node_size.unwrap() as nat),
                ip@,
            ),
            node_data: old(store)@.node_data.insert(
                ip@,
                crate::nodes::NodeDataV { score: 500, secret_address: address@ },
            ),
            ..old(store)@
        }),
{
    push_node(store, ip, address);
    Ok(HandleResponse::default())
}

fn try_get_ip(store: &Store, index: u64) -> (r: String)
    requires
        store.wf(),
        store@.node_size is Some,
        nodes_wf(store@),
    ensures
        r@ == node_at(store@, index as int),
{
    get_node(store, index)
}

fn try_get_top_x(store: &Store, size: u64) -> (r: Vec<String>)
    requires
        store.wf(),
        store@.node_size is Some,
        nodes_wf(store@),
    ensures
        r.deep_view() == node_list_spec(store@, size),
{
    let actual = get_node_size(store);
    let size = if size < actual {
        size
    } else {
        actual
    };
    let index_node = get_node(store, 0);
    let mut nodes: Vec<String> = Vec::new();
    nodes.push(index_node);
    if size <= 1 {
        proof {
            assert(nodes.deep_view() =~= node_list_spec(store@, size));
            assert(node_list_spec(store@, size) == node_list_spec(
                store@,
                (if size < actual {
                    size
                } else {
                    actual
                }),
            ));
        }
        return nodes;
    }
    let mut x: u64 = 1;
    while x < size
        invariant
            store.wf(),
            store@.node_size is Some,
            nodes_wf(store@),
            1 <= x <= size,
            size <= store@.node_size.unwrap(),
            size > 1,
            nodes.deep_view() =~= Seq::new(x as nat, |i: int| node_at(store@, i)),
        decreases size - x,
    {
        let new_node = get_node(store, x);
        let ghost pre_nodes = nodes.deep_view();
        nodes.push(new_node);
        proof {
            assert(nodes.deep_view() =~= pre_nodes.push(node_at(store@, x as int)));
            assert(nodes.deep_view() =~= Seq::new(x as nat + 1, |i: int| node_at(store@, i)));
        }
        x += 1;
    }
    proof {
        assert(nodes.deep_view() =~= node_list_spec(store@, size));
    }
    nodes
}

fn try_get_node_list_size(store: &Store) -> (r: u64)
    requires
        store.wf(),
        store@.node_size is Some,
    ensures
        r == store@.node_size.unwrap(),
{
    get_node_size(store)
}

} // verus!

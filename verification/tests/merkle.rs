use ethrex_core::account::{
    empty_trie_hash, AccountInfo, AccountState, AccountUpdate, Code,
};
use ethrex_core::blockchain::assembly::{
    empty_root, needs_storage_root, slot_write, slot_writes, take_choice, Gathered,
    PreMerkelizedAccountState, SlotWrite, StorageResults, TrieNode, RLP_NULL,
};
use ethrex_core::blockchain::bal_merkle::{
    apply_work_item, build_shards, collect_codes, pack_bins, partition_accounts, weigh_accounts,
    BalStateWorkItem, BalSynthesisItem, HashedItem, Work, NUM_WORKERS, STORAGE_SHARD_THRESHOLD,
};
use ethrex_core::blockchain::merkle_worker::{
    BeforePoll, Effect, Idle, Outgoing, ProcessAccount, SubtrieWorker, ALL_WORKERS,
};
use ethrex_core::blockchain::routing::UpdateRouter;
use ethrex_core::blockchain::sorting::sort;
use ethrex_core::blockchain::trie_node::{
    attach, branchify, collapse_root_node, compute_sharded_storage_root, in_shard, BranchNode,
    Collapsed, ExtensionNode, LeafNode, Node, NodeRef, StoragePlan,
};
use ethrex_core::table::Table;
use ethrex_core::word::{Address, H256, U256};

fn nibbled(nibble: u128, n: u128) -> H256 {
    H256 { hi: nibble << 124, lo: n }
}

fn address(n: u128) -> Address {
    Address { hi: 0, lo: n }
}

fn word(n: u64) -> U256 {
    U256::from_u64(n)
}

fn info(balance: u64) -> AccountInfo {
    let mut i = AccountInfo::empty();
    i.balance = word(balance);
    i
}

fn item(slots: u64) -> BalSynthesisItem {
    let mut added_storage: Table<H256, U256> = Table::new();
    for n in 0..slots {
        added_storage.insert(nibbled(0, n as u128), word(1));
    }
    BalSynthesisItem { nonce: None, balance: None, code_hash: None, code: None, added_storage }
}

fn empty_branch() -> BranchNode {
    let mut choices = Vec::new();
    for _ in 0..16 {
        choices.push(NodeRef::Empty);
    }
    BranchNode { choices, value: Vec::new() }
}

fn leaf(partial: Vec<u8>) -> Node {
    Node::Leaf(LeafNode { partial, value: vec![1] })
}

#[test]
fn sorting_orders_and_keeps_everything() {
    let slots = vec![
        (nibbled(3, 0), word(1)),
        (nibbled(1, 5), word(2)),
        (nibbled(1, 4), word(3)),
        (nibbled(1, 4), word(4)),
    ];
    let sorted = sort(&slots);
    assert_eq!(
        sorted,
        vec![
            (nibbled(1, 4), word(3)),
            (nibbled(1, 4), word(4)),
            (nibbled(1, 5), word(2)),
            (nibbled(3, 0), word(1)),
        ]
    );
    let work = vec![
        Work { account: 0, weight: 1 },
        Work { account: 1, weight: 9 },
        Work { account: 2, weight: 0 },
    ];
    let order: Vec<usize> = sort(&work).iter().map(|w| w.account).collect();
    assert_eq!(order, vec![1, 0, 2]);
}

#[test]
fn heavy_accounts_are_set_apart() {
    let accounts: Vec<HashedItem> = vec![
        (nibbled(1, 0), item(0)),
        (nibbled(2, 0), item(STORAGE_SHARD_THRESHOLD as u64)),
        (nibbled(3, 0), item(STORAGE_SHARD_THRESHOLD as u64 - 1)),
    ];
    let (normal, hot) = partition_accounts(&accounts);
    assert_eq!(normal, vec![0, 2]);
    assert_eq!(hot, vec![1]);
    let work = weigh_accounts(&accounts, &normal);
    assert_eq!(work[0], Work { account: 0, weight: 0 });
    assert_eq!(work[1], Work { account: 2, weight: STORAGE_SHARD_THRESHOLD - 1 });
    assert!(!needs_storage_root(&accounts[0].1));
    assert!(needs_storage_root(&accounts[2].1));
}

#[test]
fn work_is_packed_evenly() {
    let mut work = Vec::new();
    for n in 0..100usize {
        work.push(Work { account: n, weight: n % 7 + 1 });
    }
    let bins = pack_bins(&work);
    assert_eq!(bins.len(), NUM_WORKERS);
    let mut seen = vec![0; 100];
    let mut weights = Vec::new();
    for bin in &bins {
        let mut weight = 0;
        for n in bin {
            seen[*n] += 1;
            weight += n % 7 + 1;
        }
        weights.push(weight);
    }
    assert!(seen.iter().all(|n| *n == 1));
    let most = weights.iter().max().unwrap();
    let least = weights.iter().min().unwrap();
    assert!(most - least <= 7);
    let single = pack_bins(&vec![Work { account: 4, weight: 2 }, Work { account: 5, weight: 3 }]);
    assert_eq!(single[0], vec![5]);
    assert_eq!(single[1], vec![4]);
}

#[test]
fn accounts_are_dealt_out_by_their_first_nibble() {
    let mut rich = item(0);
    rich.balance = Some(word(9));
    let accounts: Vec<HashedItem> =
        vec![(nibbled(4, 1), item(0)), (nibbled(4, 2), rich), (nibbled(15, 3), item(0))];
    let shards = build_shards(&accounts, &vec![None, Some(nibbled(9, 9)), None]);
    assert_eq!(shards.len(), 16);
    assert_eq!(shards[4].len(), 2);
    assert_eq!(shards[15].len(), 1);
    assert_eq!(shards[4][1].balance, Some(word(9)));
    assert_eq!(shards[4][1].storage_root, Some(nibbled(9, 9)));
    assert!(shards[0].is_empty());
}

#[test]
fn empty_account_is_removed_from_the_trie() {
    let prefix = nibbled(1, 1);
    let change = BalStateWorkItem {
        hashed_address: prefix,
        nonce: Some(0),
        balance: Some(word(0)),
        code_hash: None,
        storage_root: None,
    };
    let mut state = AccountState::empty();
    state.balance = word(5);
    assert_eq!(apply_work_item(&change, Some(state)), Effect::RemoveAccount { prefix });
    assert_eq!(apply_work_item(&change, None), Effect::RemoveAccount { prefix });
    let mut kept = change;
    kept.balance = None;
    assert_eq!(apply_work_item(&kept, Some(state)), Effect::PutAccount { prefix, state });
    kept.storage_root = Some(nibbled(7, 7));
    kept.nonce = Some(3);
    kept.code_hash = Some(nibbled(8, 8));
    let mut after = state;
    after.storage_root = nibbled(7, 7);
    after.nonce = 3;
    after.code_hash = nibbled(8, 8);
    assert_eq!(apply_work_item(&kept, Some(state)), Effect::PutAccount { prefix, state: after });
}

#[test]
fn codes_need_their_hash() {
    let mut with = item(0);
    with.code_hash = Some(nibbled(1, 1));
    with.code = Some(Code { hash: nibbled(1, 1), bytecode: vec![1] });
    let mut without = item(0);
    without.code_hash = Some(nibbled(2, 2));
    let codes = collect_codes(&vec![(nibbled(0, 0), without), (nibbled(0, 1), with)]);
    assert_eq!(codes.len(), 1);
    assert_eq!(codes[0].0, nibbled(1, 1));
    assert_eq!(codes[0].1.bytecode, vec![1]);
}

#[test]
fn slots_are_written_in_order_and_zeros_removed() {
    let writes = slot_writes(&vec![(nibbled(2, 0), word(0)), (nibbled(1, 0), word(7))]);
    assert_eq!(
        writes,
        vec![
            SlotWrite::Put { key: nibbled(1, 0), value: word(7) },
            SlotWrite::Remove { key: nibbled(2, 0) },
        ]
    );
}

#[test]
fn storage_results_are_kept_by_position() {
    let accounts: Vec<HashedItem> = vec![(nibbled(1, 0), item(1)), (nibbled(2, 0), item(1))];
    let mut results = StorageResults::new(2);
    assert_eq!(results.roots, vec![None, None]);
    results.record(&accounts, 1, nibbled(9, 9), Vec::new());
    assert_eq!(results.roots, vec![None, Some(nibbled(9, 9))]);
    assert_eq!(results.updates.len(), 1);
    assert_eq!(results.updates[0].0, nibbled(2, 0));
}

#[test]
fn root_is_put_together_from_the_workers() {
    let mut gathered = Gathered::new();
    for index in [3u8, 1] {
        let mut subroot = empty_branch();
        subroot.choices[index as usize] = NodeRef::Hash(nibbled(index as u128, 0));
        subroot.choices[9] = NodeRef::Hash(nibbled(9, 0));
        gathered.take(
            index,
            subroot,
            vec![TrieNode { path: vec![index], encoded: vec![] }],
            vec![(nibbled(index as u128, 0), Vec::new())],
        );
    }
    assert!(matches!(gathered.root.choices[1], NodeRef::Hash(h) if h == nibbled(1, 0)));
    assert!(matches!(gathered.root.choices[3], NodeRef::Hash(h) if h == nibbled(3, 0)));
    assert!(matches!(gathered.root.choices[9], NodeRef::Empty));
    assert_eq!(gathered.state_updates.len(), 2);
    assert_eq!(gathered.storage_updates.len(), 2);
    let mut none = Gathered::new();
    assert_eq!(none.finish_empty(), empty_trie_hash());
    assert_eq!(none.state_updates[0].encoded, vec![RLP_NULL]);
    let mut root = empty_branch();
    let mut part = empty_branch();
    part.choices[0] = NodeRef::Hash(nibbled(5, 5));
    take_choice(&mut root, part, 0);
    assert!(matches!(root.choices[0], NodeRef::Hash(_)));
}

#[test]
fn root_with_one_child_collapses() {
    assert!(matches!(collapse_root_node(empty_branch()), Collapsed::Nothing));
    let mut one = empty_branch();
    one.choices[5] = NodeRef::Node(Box::new(leaf(vec![1, 2])));
    match collapse_root_node(one) {
        Collapsed::Root(Node::Leaf(l)) => assert_eq!(l.partial, vec![5, 1, 2]),
        _ => panic!("expected a leaf"),
    }
    let mut long = empty_branch();
    long.choices[5] = NodeRef::Node(Box::new(Node::Extension(ExtensionNode {
        prefix: vec![7],
        child: NodeRef::Hash(nibbled(1, 1)),
    })));
    match collapse_root_node(long) {
        Collapsed::Root(Node::Extension(e)) => assert_eq!(e.prefix, vec![5, 7]),
        _ => panic!("expected an extension"),
    }
    let mut two = empty_branch();
    two.choices[5] = NodeRef::Node(Box::new(leaf(vec![1])));
    two.choices[6] = NodeRef::Hash(nibbled(1, 1));
    assert!(matches!(collapse_root_node(two), Collapsed::Root(Node::Branch(_))));
    let mut unread = empty_branch();
    unread.choices[5] = NodeRef::Hash(nibbled(1, 1));
    assert!(matches!(collapse_root_node(unread), Collapsed::Load { choice: 5, .. }));
}

#[test]
fn attaching_lengthens_a_path() {
    match attach(9, leaf(vec![1, 2])) {
        Node::Leaf(l) => assert_eq!((l.partial, l.value), (vec![9, 1, 2], vec![1])),
        _ => panic!("expected a leaf"),
    }
    match attach(9, Node::Branch(empty_root())) {
        Node::Extension(e) => {
            assert_eq!(e.prefix, vec![9]);
            assert!(matches!(e.child, NodeRef::Node(n) if matches!(*n, Node::Branch(_))));
        }
        _ => panic!("expected an extension"),
    }
}

#[test]
fn shards_of_a_storage_trie_are_put_together() {
    let mut first = empty_root();
    first.choices[1] = NodeRef::Hash(nibbled(0, 11));
    first.choices[2] = NodeRef::Hash(nibbled(0, 12));
    let mut second = empty_root();
    second.choices[1] = NodeRef::Hash(nibbled(0, 21));
    second.choices[2] = NodeRef::Hash(nibbled(0, 22));
    let mut state = PreMerkelizedAccountState::new();
    state.take_shard(1, first, Vec::new());
    state.take_shard(2, second, Vec::new());
    let root = state.storage_root.unwrap();
    assert!(matches!(root.choices[1], NodeRef::Hash(h) if h == nibbled(0, 11)));
    assert!(matches!(root.choices[2], NodeRef::Hash(h) if h == nibbled(0, 22)));
    assert!(matches!(root.choices[3], NodeRef::Empty));
}

#[test]
fn any_root_becomes_a_branch() {
    let b = branchify(leaf(vec![3, 4]));
    match &b.choices[3] {
        NodeRef::Node(n) => match &**n {
            Node::Leaf(l) => assert_eq!(l.partial, vec![4]),
            _ => panic!("expected a leaf"),
        },
        _ => panic!("expected a node"),
    }
    let e = branchify(Node::Extension(ExtensionNode {
        prefix: vec![6],
        child: NodeRef::Hash(nibbled(2, 2)),
    }));
    assert!(matches!(e.choices[6], NodeRef::Hash(_)));
    assert!(matches!(e.choices[7], NodeRef::Empty));
    assert!(in_shard(&vec![3, 4], 3));
    assert!(!in_shard(&vec![3, 4], 4));
}

#[test]
fn storage_is_sharded_only_where_it_pays() {
    let same = vec![(nibbled(4, 2), word(1)), (nibbled(4, 1), word(2))];
    match compute_sharded_storage_root(&same) {
        StoragePlan::Serial(slots) => {
            assert_eq!(slots, vec![(nibbled(4, 1), word(2)), (nibbled(4, 2), word(1))])
        }
        _ => panic!("expected one go"),
    }
    let spread = vec![(nibbled(4, 2), word(1)), (nibbled(9, 1), word(2))];
    match compute_sharded_storage_root(&spread) {
        StoragePlan::Sharded(shards) => {
            assert_eq!(shards[4], vec![(nibbled(4, 2), word(1))]);
            assert_eq!(shards[9], vec![(nibbled(9, 1), word(2))]);
            assert!(shards[0].is_empty());
        }
        _ => panic!("expected shards"),
    }
    assert!(matches!(compute_sharded_storage_root(&Vec::new()), StoragePlan::Serial(_)));
}

fn update(n: u128) -> AccountUpdate {
    AccountUpdate {
        address: address(n),
        removed: false,
        info: Some(info(n as u64)),
        code: None,
        added_storage: Table::new(),
        removed_storage: false,
    }
}

#[test]
fn updates_are_routed_and_merged() {
    let mut router = UpdateRouter::new(true);
    let (worker, request) = router.route(nibbled(6, 1), &update(1), Vec::new());
    assert_eq!(worker, 6);
    assert_eq!(request.info.unwrap().balance, word(1));
    let mut second = update(1);
    second.info = None;
    second.added_storage.insert(nibbled(0, 1), word(5));
    let (_, request) =
        router.route(nibbled(6, 1), &second, vec![(nibbled(3, 3), word(5))]);
    assert!(request.info.is_none());
    assert_eq!(request.storage, vec![(nibbled(3, 3), word(5))]);
    router.route(nibbled(2, 2), &update(2), Vec::new());
    let batches = router.early_batches();
    assert_eq!(batches.len(), 16);
    assert!(batches[6].is_empty());
    assert_eq!(batches[2], vec![nibbled(2, 2)]);
    let accumulated = router.accumulator.as_ref().unwrap();
    let merged = accumulated.get(address(1)).unwrap();
    assert_eq!(merged.info.unwrap().balance, word(1));
    assert_eq!(merged.added_storage.get(nibbled(0, 1)), Some(&word(5)));
    let mut gone = update(2);
    gone.removed = true;
    let (_, request) = router.route(nibbled(2, 2), &gone, vec![(nibbled(1, 1), word(1))]);
    assert_eq!(request.info, Some(AccountInfo::empty()));
    assert!(request.storage.is_empty());
    assert!(router.early_batches()[2].is_empty());
    assert!(UpdateRouter::new(false).accumulator.is_none());
}

#[test]
fn router_gathers_codes() {
    let mut router = UpdateRouter::new(false);
    let mut with = update(1);
    with.code = Some(Code { hash: nibbled(1, 7), bytecode: vec![1, 2] });
    with.info = Some(AccountInfo { code_hash: nibbled(1, 7), balance: word(0), nonce: 1 });
    router.route(nibbled(6, 1), &with, Vec::new());
    assert_eq!(router.code_updates.len(), 1);
    assert_eq!(router.code_updates[0].0, nibbled(1, 7));
}

fn request(prefix: H256, storage: Vec<(H256, U256)>) -> ProcessAccount {
    ProcessAccount {
        prefix,
        info: Some(info(5)),
        storage,
        removed: false,
        removed_storage: false,
    }
}

#[test]
fn worker_sends_slots_to_those_that_hold_them() {
    let mut worker = SubtrieWorker::new(2);
    let prefix = nibbled(2, 1);
    assert!(worker.must_load(prefix));
    let effects = worker.process_account(
        &request(prefix, vec![(nibbled(2, 5), word(1)), (nibbled(7, 6), word(2))]),
        None,
    );
    let mut state = AccountState::empty();
    state.balance = word(5);
    assert_eq!(effects[0], Effect::PutAccount { prefix, state });
    assert_eq!(
        effects[1],
        Effect::WriteSlot {
            prefix,
            write: SlotWrite::Put { key: nibbled(2, 5), value: word(1) },
            storage_root: empty_trie_hash(),
        }
    );
    assert_eq!(
        effects[2],
        Effect::Send {
            to: 7,
            message: Outgoing::MerklizeStorage {
                prefix,
                key: nibbled(7, 6),
                value: word(2),
                storage_root: empty_trie_hash(),
            },
        }
    );
    assert_eq!(effects.len(), 3);
    assert!(!worker.must_load(prefix));
}

#[test]
fn worker_waits_for_all_parts_of_a_storage_trie() {
    let mut worker = SubtrieWorker::new(2);
    let prefix = nibbled(2, 1);
    worker.process_account(
        &request(prefix, vec![(nibbled(2, 5), word(1)), (nibbled(7, 6), word(2))]),
        None,
    );
    assert!(!worker.storage_shard(prefix, 2));
    assert!(worker.storage_shard(prefix, 7));
    let (effect, _) = worker.storage_resolved(nibbled(3, 3));
    let mut state = AccountState::empty();
    state.balance = word(5);
    state.storage_root = nibbled(3, 3);
    assert_eq!(effect, Effect::PutAccount { prefix, state });
}

#[test]
fn removed_storage_is_removed_everywhere() {
    let mut worker = SubtrieWorker::new(0);
    let prefix = nibbled(0, 1);
    let mut r = request(prefix, Vec::new());
    r.removed_storage = true;
    let effects = worker.process_account(&r, None);
    let sends = effects
        .iter()
        .filter(|e| matches!(e, Effect::Send { message: Outgoing::DeleteStorage(_), .. }))
        .count();
    assert_eq!(sends, 15);
    assert!(effects.contains(&Effect::ResetStorage { prefix }));
    assert_eq!(ALL_WORKERS, 0xffff);
    let mut other = SubtrieWorker::new(3);
    assert_eq!(other.delete_storage(prefix), Effect::ResetStorage { prefix });
    assert_eq!(
        other.merklize_storage(prefix, nibbled(3, 1), word(0), nibbled(4, 4)),
        Effect::WriteSlot {
            prefix,
            write: SlotWrite::Remove { key: nibbled(3, 1) },
            storage_root: nibbled(4, 4),
        }
    );
}

#[test]
fn worker_collects_once_all_have_finished_routing() {
    let mut worker = SubtrieWorker::new(1);
    let effects = worker.finish_routing();
    assert_eq!(effects.len(), 16);
    assert!(!worker.collect_state());
    for from in 0..15u8 {
        worker.routing_done(from);
    }
    assert!(matches!(worker.before_poll(), BeforePoll::Nothing));
    worker.routing_done(15);
    assert_eq!(worker.before_poll(), BeforePoll::StopSendingAndCollect);
}

#[test]
fn worker_sends_its_parts_before_it_stops() {
    let mut worker = SubtrieWorker::new(1);
    let prefix = nibbled(9, 1);
    worker.merklize_storage(prefix, nibbled(1, 1), word(1), nibbled(4, 4));
    assert!(!worker.polls() || worker.idle() == Idle::PreCollect { storages: true });
    for from in 0..16u8 {
        worker.routing_done(from);
    }
    assert!(worker.polls());
    assert_eq!(worker.before_poll(), BeforePoll::SendShard { prefix, to: 9 });
    assert_eq!(worker.before_poll(), BeforePoll::StopSending);
    assert_eq!(worker.before_poll(), BeforePoll::Nothing);
    assert!(worker.collect_state());
}

#[test]
fn order_of_slots_does_not_matter() {
    let slots = vec![(nibbled(4, 2), word(1)), (nibbled(9, 1), word(0)), (nibbled(4, 1), word(3))];
    let mut turned = slots.clone();
    turned.reverse();
    assert_eq!(slot_writes(&slots), slot_writes(&turned));
    match (compute_sharded_storage_root(&slots), compute_sharded_storage_root(&turned)) {
        (StoragePlan::Sharded(a), StoragePlan::Sharded(b)) => {
            assert_eq!(a, b);
            // Each worker writes what would be written below its nibble in one go.
            assert_eq!(slot_writes(&a[4]), slot_writes(&slots)[..2].to_vec());
            assert_eq!(slot_writes(&a[9]), vec![SlotWrite::Remove { key: nibbled(9, 1) }]);
        }
        _ => panic!("expected shards"),
    }
    assert_eq!(slot_write(nibbled(1, 1), word(0)), SlotWrite::Remove { key: nibbled(1, 1) });
}

#[test]
fn emptied_storage_is_written_as_no_node() {
    let mut state = PreMerkelizedAccountState::new();
    assert_eq!(state.finish_empty(), empty_trie_hash());
    assert_eq!(state.nodes.len(), 1);
    assert_eq!((state.nodes[0].path.len(), state.nodes[0].encoded.clone()), (0, vec![RLP_NULL]));
}

#[test]
fn worker_knows_which_shards_are_to_come() {
    let mut worker = SubtrieWorker::new(2);
    let prefix = nibbled(2, 1);
    assert!(worker.can_send());
    assert!(worker.takes_account(prefix));
    assert!(!worker.awaits(prefix, 2));
    worker.process_account(
        &request(prefix, vec![(nibbled(2, 5), word(1)), (nibbled(7, 6), word(2))]),
        None,
    );
    assert!(worker.awaits(prefix, 2));
    assert!(worker.awaits(prefix, 7));
    assert!(!worker.awaits(prefix, 3));
    assert!(!worker.awaits(prefix, 16));
    assert!(!worker.storage_shard(prefix, 7));
    assert!(!worker.awaits(prefix, 7));
    assert!(!worker.takes_account(prefix));
}

use vstd::prelude::*;
use crate::block::{Block, BlockView, genesis_view, links_to};

verus! {

/// The contents of each block of a chain.
pub open spec fn chain_view(chain: Seq<Block>) -> Seq<BlockView> {
    chain.map_values(|b: Block| b@)
}

/// `chain` starts with `genesis` and every later block continues the one before it.
pub open spec fn valid_chain(genesis: BlockView, chain: Seq<BlockView>) -> bool {
    &&& chain.len() > 0
    &&& chain[0] == genesis
    &&& forall|i: int| 1 <= i < chain.len() ==> #[trigger] links_to(chain[i], chain[i - 1])
}

/// A chain whose first block differs from `genesis` is never valid,
/// however well the blocks after it are linked.
pub proof fn lemma_foreign_first_block_invalid(genesis: BlockView, chain: Seq<BlockView>)
    requires
        chain.len() > 0,
        chain[0] != genesis,
    ensures
        !valid_chain(genesis, chain),
{
}

/// A request for, or an announcement of, chain contents exchanged between peers.
#[derive(Clone, Debug)]
pub enum ClientMessage {
    QueryLatest,
    QueryAll,
    ResponseLatest(Block),
    ResponseAll(Vec<Block>),
}

/// The abstract state of a ledger store.
pub struct HandlerView {
    pub chain: Seq<BlockView>,
    pub genesis: BlockView,
}

/// The ledger store: the local chain and the genesis block it must start with.
#[derive(Clone, Debug)]
pub struct Handler {
    blockchain: Vec<Block>,
    genesis: Block,
}

impl View for Handler {
    type V = HandlerView;

    closed spec fn view(&self) -> HandlerView {
        HandlerView { chain: chain_view(self.blockchain@), genesis: self.genesis@ }
    }
}

/// A copy of `chain` with the same contents.
fn copy_chain(chain: &Vec<Block>) -> (r: Vec<Block>)
    ensures
        chain_view(r@) == chain_view(chain@),
{
    let mut r: Vec<Block> = Vec::new();
    let mut i: usize = 0;
    while i < chain.len()
        invariant
            i <= chain@.len(),
            r@.len() == i,
            forall|j: int| 0 <= j < i ==> #[trigger] r@[j]@ == chain@[j]@,
        decreases chain@.len() - i,
    {
        r.push(chain[i].copied());
        i = i + 1;
    }
    assert(chain_view(r@) =~= chain_view(chain@));
    r
}

impl Handler {
    /// The store's invariant: its genesis block is the fixed one and its chain is valid.
    pub open spec fn wf(&self) -> bool {
        &&& self@.genesis == genesis_view()
        &&& valid_chain(self@.genesis, self@.chain)
    }

    /// The store's state after an attempt to append `b`.
    pub open spec fn after_push(s: HandlerView, b: BlockView) -> HandlerView {
        if links_to(b, s.chain.last()) {
            HandlerView { chain: s.chain.push(b), ..s }
        } else {
            s
        }
    }

    /// The store's state after an attempt to replace its chain by `c`.
    pub open spec fn after_replace(s: HandlerView, c: Seq<BlockView>) -> HandlerView {
        if valid_chain(s.genesis, c) && c.len() > s.chain.len() {
            HandlerView { chain: c, ..s }
        } else {
            s
        }
    }

    /// What handling `msg` in state `s` leads to: a query is answered from `s`
    /// and changes nothing; an announced block or chain is applied as
    /// `push_block` or `replace_chain` would, and gets no reply.
    pub open spec fn processed(s: HandlerView, msg: ClientMessage, t: HandlerView, r: Option<ClientMessage>) -> bool {
        match msg {
            ClientMessage::QueryLatest => {
                &&& t == s
                &&& (r matches Some(ClientMessage::ResponseLatest(b)) && b@ == s.chain.last())
            },
            ClientMessage::QueryAll => {
                &&& t == s
                &&& (r matches Some(ClientMessage::ResponseAll(c)) && chain_view(c@) == s.chain)
            },
            ClientMessage::ResponseLatest(b) => {
                &&& r is None
                &&& t == Self::after_push(s, b@)
            },
            ClientMessage::ResponseAll(c) => {
                &&& r is None
                &&& t == Self::after_replace(s, chain_view(c@))
            },
        }
    }

    /// A store whose chain holds the genesis block alone.
    pub fn new() -> (r: Handler)
        ensures
            r.wf(),
            r@.chain == seq![genesis_view()],
    {
        let genesis = Block::genesis();
        let mut blockchain: Vec<Block> = Vec::new();
        blockchain.push(genesis.copied());
        let r = Handler { blockchain, genesis };
        assert(r@.chain =~= seq![genesis_view()]);
        r
    }

    /// Whether `chain` starts with `genesis` and every later block continues the one before it.
    pub fn validate_chain(genesis: &Block, chain: &Vec<Block>) -> (r: bool)
        ensures
            r == valid_chain(genesis@, chain_view(chain@)),
    {
        if chain.len() == 0 {
            return false;
        }
        if !chain[0].same_as(genesis) {
            return false;
        }
        let mut i: usize = 1;
        while i < chain.len()
            invariant
                1 <= i <= chain@.len(),
                chain_view(chain@)[0] == genesis@,
                forall|j: int| 1 <= j < i ==> #[trigger] links_to(chain_view(chain@)[j], chain_view(chain@)[j - 1]),
            decreases chain@.len() - i,
        {
            if !chain[i].validate_block(&chain[i - 1]) {
                assert(!links_to(chain_view(chain@)[i as int], chain_view(chain@)[i - 1]));
                return false;
            }
            i = i + 1;
        }
        true
    }

    /// Adopts `new_chain` if it is valid and strictly longer than the local chain.
    pub fn replace_chain(&mut self, new_chain: Vec<Block>) -> (r: bool)
        requires
            old(self).wf(),
        ensures
            final(self).wf(),
            r == (valid_chain(old(self)@.genesis, chain_view(new_chain@))
                && new_chain@.len() > old(self)@.chain.len()),
            final(self)@ == Self::after_replace(old(self)@, chain_view(new_chain@)),
    {
        if Self::validate_chain(&self.genesis, &new_chain) && new_chain.len() > self.blockchain.len() {
            self.blockchain = new_chain;
            true
        } else {
            false
        }
    }

    /// The last block of the local chain.
    pub fn latest_block(&self) -> (r: &Block)
        requires
            self.wf(),
        ensures
            r@ == self@.chain.last(),
    {
        let n = self.blockchain.len();
        &self.blockchain[n - 1]
    }

    /// Appends `new_block` if it continues the latest block.
    pub fn push_block(&mut self, new_block: Block) -> (r: bool)
        requires
            old(self).wf(),
        ensures
            final(self).wf(),
            r == links_to(new_block@, old(self)@.chain.last()),
            final(self)@ == Self::after_push(old(self)@, new_block@),
            r ==> final(self)@.chain.len() == old(self)@.chain.len() + 1,
            r ==> final(self)@.chain.last() == new_block@,
    {
        if new_block.validate_block(self.latest_block()) {
            self.blockchain.push(new_block);
            proof {
                assert(self@.chain =~= old(self)@.chain.push(new_block@));
            }
            true
        } else {
            false
        }
    }

    /// The local chain.
    pub fn blockchain(&self) -> (r: &Vec<Block>)
        ensures
            chain_view(r@) == self@.chain,
    {
        &self.blockchain
    }

    /// Answers a query, or applies an announced block or chain.
    pub fn process(&mut self, msg: ClientMessage) -> (r: Option<ClientMessage>)
        requires
            old(self).wf(),
        ensures
            final(self).wf(),
            Self::processed(old(self)@, msg, final(self)@, r),
    {
        match msg {
            ClientMessage::QueryLatest => Some(ClientMessage::ResponseLatest(self.latest_block().copied())),
            ClientMessage::QueryAll => Some(ClientMessage::ResponseAll(copy_chain(&self.blockchain))),
            ClientMessage::ResponseLatest(new_block) => {
                self.push_block(new_block);
                None
            },
            ClientMessage::ResponseAll(new_chain) => {
                self.replace_chain(new_chain);
                None
            },
        }
    }

    /// Handles an incoming payload once it has been decoded: `None` stands for a
    /// payload that did not decode, which is dropped with no reply and no change.
    pub fn handle_decoded(&mut self, decoded: Option<ClientMessage>) -> (r: Option<ClientMessage>)
        requires
            old(self).wf(),
        ensures
            final(self).wf(),
            decoded is None ==> r is None && final(self)@ == old(self)@,
            decoded matches Some(msg) ==> Self::processed(old(self)@, msg, final(self)@, r),
    {
        match decoded {
            Some(msg) => self.process(msg),
            None => None,
        }
    }
}

} // verus!

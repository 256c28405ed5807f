use vstd::prelude::*;

verus! {

/// An amount of the native currency.
pub type Balance = u128;

/// An account of the host chain: 32 raw bytes.
#[derive(Debug, Clone, Copy)]
pub struct AccountId(pub [u8; 32]);

impl View for AccountId {
    type V = Seq<u8>;

    open spec fn view(&self) -> Seq<u8> {
        self.0@
    }
}

impl AccountId {
    /// Compares two accounts byte by byte.
    pub fn same_as(&self, other: &AccountId) -> (r: bool)
        ensures
            r == (self@ == other@),
    {
        let mut i: usize = 0;
        while i < 32
            invariant
                0 <= i <= 32,
                self@.len() == 32,
                other@.len() == 32,
                forall|j: int| 0 <= j < i ==> self@[j] == other@[j],
            decreases 32 - i,
        {
            if self.0[i] != other.0[i] {
                return false;
            }
            i = i + 1;
        }
        assert(self@ =~= other@);
        true
    }
}

/// The identifier of one token of the ledger.
#[derive(Debug, Clone)]
pub enum Id {
    U8(u8),
    U16(u16),
    U32(u32),
    U64(u64),
    U128(u128),
    Bytes(Vec<u8>),
}

/// What a token identifier denotes: the variant and its value.
pub enum IdView {
    U8(u8),
    U16(u16),
    U32(u32),
    U64(u64),
    U128(u128),
    Bytes(Seq<u8>),
}

impl View for Id {
    type V = IdView;

    open spec fn view(&self) -> IdView {
        match self {
            Id::U8(v) => IdView::U8(*v),
            Id::U16(v) => IdView::U16(*v),
            Id::U32(v) => IdView::U32(*v),
            Id::U64(v) => IdView::U64(*v),
            Id::U128(v) => IdView::U128(*v),
            Id::Bytes(b) => IdView::Bytes(b@),
        }
    }
}

fn same_bytes(a: &Vec<u8>, b: &Vec<u8>) -> (r: bool)
    ensures
        r == (a@ == b@),
{
    if a.len() != b.len() {
        return false;
    }
    let mut i: usize = 0;
    while i < a.len()
        invariant
            0 <= i <= a@.len(),
            a@.len() == b@.len(),
            forall|j: int| 0 <= j < i ==> a@[j] == b@[j],
        decreases a@.len() - i,
    {
        if a[i] != b[i] {
            return false;
        }
        i = i + 1;
    }
    assert(a@ =~= b@);
    true
}

impl Id {
    /// Two identifiers are the same when they have the same variant and value.
    pub fn same_as(&self, other: &Id) -> (r: bool)
        ensures
            r == (self@ == other@),
    {
        match (self, other) {
            (Id::U8(a), Id::U8(b)) => *a == *b,
            (Id::U16(a), Id::U16(b)) => *a == *b,
            (Id::U32(a), Id::U32(b)) => *a == *b,
            (Id::U64(a), Id::U64(b)) => *a == *b,
            (Id::U128(a), Id::U128(b)) => *a == *b,
            (Id::Bytes(a), Id::Bytes(b)) => same_bytes(a, b),
            _ => false,
        }
    }
}

/// Record of a change of owner of a token; `None` stands for minting or burning.
#[derive(Debug, Clone)]
pub struct Transfer {
    pub from: Option<AccountId>,
    pub to: Option<AccountId>,
    pub id: Id,
}

/// Record of an approval given or withdrawn; `id` is `None` for all tokens of `from`.
#[derive(Debug, Clone)]
pub struct Approval {
    pub from: AccountId,
    pub to: AccountId,
    pub id: Option<Id>,
    pub approved: bool,
}

/// Record of a completed sale.
#[derive(Debug, Clone)]
pub struct Trade {
    pub seller: AccountId,
    pub buyer: AccountId,
    pub id: Id,
    pub price: Balance,
}

impl Trade {
    /// The change of owner that a sale brings: from the seller to the buyer.
    pub fn transfer(self) -> (r: Transfer)
        ensures
            r.from matches Some(f) && f@ == self.seller@,
            r.to matches Some(t) && t@ == self.buyer@,
            r.id@ == self.id@,
    {
        Transfer { from: Some(self.seller), to: Some(self.buyer), id: self.id }
    }
}

} // verus!

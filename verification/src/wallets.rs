//! The wallet store: an ordered, read-only collection of wallet
//! addresses loaded once at startup. An empty collection is refused
//! before any network activity, since a run without wallets is
//! meaningless and would divide by zero downstream.

use vstd::prelude::*;

verus! {

/// Why the wallet collection could not be loaded.
#[derive(Debug, Clone, Copy, PartialEq, Eq, Structural)]
pub enum LoadError {
    /// The collection holds no wallet at all.
    Empty,
    /// The backing file could not be read.
    Unreadable,
    /// The backing file did not hold a wallet list.
    Malformed,
}

/// One wallet, identified by its address string.
#[derive(Debug, Clone)]
pub struct Wallet {
    pub address: String,
}

/// The ordered wallet collection; read-only during the run. Its view is
/// the sequence of address strings.
pub struct WalletStore {
    wallets: Vec<Wallet>,
}

impl View for WalletStore {
    type V = Seq<Seq<char>>;

    closed spec fn view(&self) -> Seq<Seq<char>> {
        self.wallets@.map_values(|w: Wallet| w.address@)
    }
}

impl WalletStore {
    /// Accept a non-empty wallet list; refuse an empty one with
    /// `LoadError::Empty`, so that startup aborts before any network call.
    pub fn new(wallets: Vec<Wallet>) -> (r: Result<WalletStore, LoadError>)
        ensures
            r is Ok <==> wallets@.len() > 0,
            r matches Err(e) ==> e == LoadError::Empty,
            r matches Ok(s) ==> s@ =~= wallets@.map_values(|w: Wallet| w.address@),
    {
        if wallets.len() == 0 {
            Err(LoadError::Empty)
        } else {
            Ok(WalletStore { wallets })
        }
    }

    /// How many wallets are loaded; always positive.
    pub fn count(&self) -> (r: usize)
        ensures
            r == self@.len(),
    {
        self.wallets.len()
    }

    /// The address of wallet `i`; callers that need wrap-around
    /// addressing reduce `i` modulo `count()` first.
    pub fn wallet_at(&self, i: usize) -> (r: &String)
        requires
            i < self@.len(),
        ensures
            r@ =~= self@[i as int],
    {
        &self.wallets[i].address
    }
}

} // verus!

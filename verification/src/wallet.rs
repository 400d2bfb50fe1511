//! The miner's wallet record and where it lives on disk. Key generation,
//! file handling and encryption stay outside; the library fixes the
//! record's shape and the file's place under the home directory.

use vstd::prelude::*;

verus! {

/// A miner's wallet as stored on disk.
#[derive(Clone, Debug, PartialEq, Eq)]
pub struct WalletInfo {
    /// The SS58-encoded address.
    pub address: String,
    /// The twelve-word recovery phrase.
    pub seed_phrase: String,
    /// When the wallet was created, as an ISO-8601 timestamp.
    pub created_at: String,
    /// The network the wallet belongs to.
    pub network: String,
}

impl WalletInfo {
    /// Assemble a wallet record.
    pub fn new(address: String, seed_phrase: String, created_at: String, network: String) -> (r:
        WalletInfo)
        ensures
            r.address == address,
            r.seed_phrase == seed_phrase,
            r.created_at == created_at,
            r.network == network,
    {
        WalletInfo { address, seed_phrase, created_at, network }
    }
}

/// The wallet file's path under the given home directory.
pub fn wallet_path(home_dir: &str) -> (r: String)
    ensures
        r@ == home_dir@ + "/.kod/wallet.json"@,
{
    let mut p = home_dir.to_owned();
    p.append("/.kod/wallet.json");
    p
}

} // verus!

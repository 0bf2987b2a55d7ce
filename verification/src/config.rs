//! Process configuration: where the server listens, which node endpoint
//! and network to use, and where the account file lives. Reading the
//! environment and configuration files happens outside this crate; here
//! stand the configuration values themselves, their defaults, and the
//! derived listen address.

use vstd::prelude::*;
use crate::text::{spec_dec_str, push_char, push_dec};

verus! {

/// Where the HTTP server listens.
#[derive(Debug)]
pub struct ServerConfig {
    pub host: String,
    pub port: u16,
}

/// Which node endpoint and network the chain client uses.
#[derive(Debug)]
pub struct EthereumConfig {
    pub rpc_url: String,
    pub network_id: u64,
}

/// Where the account file is persisted.
#[derive(Debug)]
pub struct WalletConfig {
    pub config_file: String,
}

/// The whole process configuration.
#[derive(Debug)]
pub struct AppConfig {
    pub server: ServerConfig,
    pub ethereum: EthereumConfig,
    pub wallet: WalletConfig,
}

impl AppConfig {
    /// The listen address, host and port joined by a colon.
    pub fn server_address(&self) -> (r: String)
        ensures
            r@ == self.server.host@ + seq![':'] + spec_dec_str(self.server.port as int),
    {
        let mut s = self.server.host.clone();
        push_char(&mut s, ':');
        push_dec(&mut s, self.server.port as u128);
        assert(s@ =~= self.server.host@ + seq![':'] + spec_dec_str(self.server.port as int));
        s
    }
}

impl Default for AppConfig {
    /// The built-in defaults: listen on all interfaces at port 3000, talk
    /// to a mainnet endpoint (the placeholder key must be replaced), and
    /// keep the account beside the process.
    fn default() -> (c: AppConfig)
        ensures
            c.server.host@ == "0.0.0.0"@,
            c.server.port == 3000,
            c.ethereum.rpc_url@ == "wss://mainnet.infura.io/ws/v3/YOUR_API_KEY"@,
            c.ethereum.network_id == 1,
            c.wallet.config_file@ == "account_config.json"@,
    {
        AppConfig {
            server: ServerConfig { host: "0.0.0.0".to_owned(), port: 3000 },
            ethereum: EthereumConfig {
                rpc_url: "wss://mainnet.infura.io/ws/v3/YOUR_API_KEY".to_owned(),
                network_id: 1,
            },
            wallet: WalletConfig { config_file: "account_config.json".to_owned() },
        }
    }
}

} // verus!

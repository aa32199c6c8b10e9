//! Verified core logic of the InterLink cross-chain bridge relayer.
pub mod arith;
pub mod text;
pub mod bytes;
pub mod fee;
pub mod finality;
pub mod amm;
pub mod atomic;
pub mod audit_trail;
pub mod batch;
pub mod benchmarks;
pub mod bitcoin_spv;
pub mod bn254;
pub mod blob_space;
pub mod bounty;
pub mod byzantine_bridge;
pub mod circuitbreaker;
pub mod consensus;
pub mod cosmos;
pub mod cosmos_gateway;
pub mod defi_integration;
pub mod enterprise;
pub mod events;
pub mod explorer;
pub mod formal_verification;
pub mod gas;
pub mod governance;
pub mod http_api;
pub mod hub;
pub mod intent;
pub mod keyed;
pub mod kyc;
pub mod lending;
pub mod liquidity_mining;
pub mod listener;
pub mod metrics;
pub mod mev;
pub mod multisig;
pub mod network;
pub mod network_opt;
pub mod nft_bridge;
pub mod recursion;
pub mod relayer;
pub mod rpc_json;
pub mod sha256;
pub mod solana_gateway;
pub mod types;

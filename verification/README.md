# interlink

The core of the InterLink cross-chain bridge relayer, written in Verus: every
rule the relayer applies to a message, a fee, a pool or a settlement is an
executable function whose contract Verus proves.

## Layout

- `src/` — the verified library. Each module holds one part of the relayer:
  event decoding (`listener`), finality and batching (`finality`, `batch`),
  the hub program and its gateways (`hub`, `solana_gateway`,
  `cosmos_gateway`), the AMM and liquidity mining (`amm`, `liquidity_mining`),
  atomic settlement, circuit breaker, KYC screening, governance, metrics and
  more. Shared arithmetic, byte and text helpers live in `arith`, `bytes` and
  `text`; SHA-256 and the BN254 scalar field are implemented and proved in
  `sha256` and `bn254`.
  Laws that relate several operations are stated as public proof functions
  named `law_*`.
- Calls into outside crates (keccak, SHA-256, base64, base58, ed25519,
  UTF-8 decoding, JSON parsing in `rpc_json`, the clock) go through small trusted wrappers marked
  `#[verifier::external_body]`; each one's doc comment says what its contract
  claims of the outside function.
- `app/` — the relayer binary around the library: configuration, the async
  runtime, RPC and HTTP plumbing, JSON rendering and the few computations on
  floating point. It is ordinary Rust and is not verified.
- `tests/` — tests that run the compiled library, outside crates linked.

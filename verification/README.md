# zebra-batch-equivalence

A differential soundness oracle for Zcash Zebra's shielded verification, as a
Verus-verified library: it drives a pool's batch verification path and its
single path over the same items, and classifies whether they agree. A batch
that accepts what some single rejects is a false accept (a soundness failure);
a batch that rejects what every single accepts is a false reject (liveness).

The cryptography is the real thing, called through `orchard`,
`sapling-crypto`, `groth16`, `redjubjub` (as re-exported by `zebra-chain`) and
`zebra-chain`; the decisions made around it are verified.

## Layout

```
src/batch_verifier.rs  the BatchVerifier trait; classification, per-item and strategy reports
src/orchard_pool.rs    Orchard and Ironwood (halo2 + RedPallas); extraction from transactions
src/sapling.rs         Sapling Groth16 through sapling-crypto's BatchValidator
src/redjubjub.rs       Sapling's RedJubjub signatures, one item per signature
src/sprout.rs          Sprout JoinSplit Groth16: public-input encoding, h_sig, key check
src/era.rs             the three Orchard circuit eras and their routing
src/invariants.rs      order, duplicate, sub-batch and era-routing invariants
src/adversarial.rs     proof damage, tampering, mostly-valid-plus-one-invalid batches
src/tower.rs           pending batches and flush log for the batching middleware; partition plans
src/turnstile.rs       Orchard <-> Ironwood turnstile: conservation, double spends, floors
src/stream.rs          the concatenated-transaction input model
src/fuzz_input.rs      which items each pool takes from one transaction
src/corpus.rs          which transactions of a block become corpus seeds; era buckets
app/                   the tokio/tower service, cached keys, panic isolation, file I/O
tests/                 tests over the library
```

The laws the library states of itself are the public `proof fn`s in `src/`.

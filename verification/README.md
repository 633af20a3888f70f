# keydock

The verified core of keydock, a multi-tenant HTTP key-value service: buckets
with independent credentials, scoped temporary tokens, TTLs and atomic
transactions. The library (`src/`) holds the service's rules as functions
with proved contracts: authentication, access checks, token minting and
verification, policy creation and patching, key writes and expiry, listing
scopes and formats, transactions and the rate-limit window. Each endpoint is
split into a request step, which decides what the store is asked, and an
answer step, which turns the store's reply into the response.

The server around it (`app/`) is plain Rust: it moves bytes between the
network, the store and the library, and it keeps the two steps that work on
floating-point numbers: the counter increment of `PATCH` on a key, and the
JSON number shown for a stored `Float64` value in JSON listings (the library
renders the rest of those bodies).

Instants are nanoseconds since the unix epoch, so expiries of keys and
tokens are kept below the second.

## Layout

- `src/domain.rs`, `src/error.rs`: value types (bucket ids, keys, permissions,
  policies, stored values) and errors with their HTTP projection.
- `src/credential.rs`: finding the credential of a request (`Authorization:
  Bearer`, `Basic`, or the `access_token` / `key` query parameters).
- `src/identity.rs`, `src/crypto.rs`: credential hashing (HMAC-SHA256 under the
  root key) and resolving a credential to an identity.
- `src/claims.rs`, `src/tokens.rs`: the temporary token format and its
  signing and verification.
- `src/access.rs`: what an identity may do on a bucket.
- `src/policy.rs`: bucket creation forms and policy patches.
- `src/keys.rs`, `src/values.rs`: the key service (value kinds, TTLs, expiry).
- `src/listing.rs`, `src/json.rs`, `src/ratelimit.rs`: listing formats and
  scopes, the text, JSON and JSON-lines bodies, and the per-client request
  window.
- `src/openapi.rs`: where each documented route is served (`/api/v1`).
- `src/handlers.rs`, `src/buckets.rs`, `src/token_endpoint.rs`, `src/txn.rs`,
  `src/health.rs`: the endpoints, from request values and store answers to responses.
- `src/fixtures.rs`, `src/context.rs`: request builders and the request context.

## Temporary tokens

A token is `base64url(payload) "." base64url(HMAC-SHA256(signing_key, payload))`
(unpadded URL-safe base64). The payload is a JSON object with seven string
fields, in this order, each holding lowercase hexadecimal text:

| field | bytes |
|---|---|
| `version` | one byte |
| `bucket` | UTF-8 of the bucket id |
| `bucket_generation` | 8 bytes, big-endian |
| `allowed_prefix` | the key prefix |
| `permissions` | one byte: read 1, write 2, enumerate 4, delete 8 |
| `iat`, `exp` | 16 bytes each, big-endian two's complement nanoseconds since the unix epoch |

Hex text never contains `"`, so each payload has exactly one reading; the
parser is proved to invert the encoder.

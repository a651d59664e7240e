# resend-router

A durable router for the webhooks of Resend, whose deliveries cannot be scoped by domain. It takes
in every webhook, verifies its Svix signature, finds the destinations that want it, keeps it, and
delivers it to each of them until it is taken or the retry window (three days by default) is over.
Webhooks that no destination wants are dropped.

- `src/` is the library. Verus proves its functions against their contracts, except those around
  calls into other crates: their contracts are taken for granted.
  - `config`, `environment`: the settings, how they are read and what they must keep.
  - `resend`: signatures of webhooks, and what a webhook says of its mail.
  - `router`: which destinations get a webhook.
  - `web`: what is done with a webhook, and what its sender is answered.
  - `db`: what is kept of webhooks, deliveries and attempts.
  - `store`: a model of the tables and of the statements on them, and what holds of it. Nothing
    ties the SQL of the program to the model.
  - `delivery`: requests, retries, deadlines, and what a worker does next.
  - `signing`: the signature by which a destination knows the router.
  - `error`, `text`, `number`, `instant`: what the others are made of.
  - `clock`, `crypto`, `headers`, `identifier`, `json`: the calls into other crates, and what is
    taken for granted of them.
- `tests/` runs the library with those crates.
- `app/` is the program: environment, endpoints, database, HTTP client, log.

## Configuration

`DATABASE_URL`, `RESEND_WEBHOOK_SECRET`, `ROUTER_SIGNING_SECRET` and `DESTINATIONS_JSON` must be
set. Destinations are a JSON array:

```json
[
  {
    "name": "main-app",
    "url": "https://app.example.com/webhooks/resend",
    "from_domains": ["example.com"],
    "to_domains": [],
    "event_types": [],
    "catch_all": false
  }
]
```

A destination gets an event where each of its non-empty lists holds. Domains are compared exactly,
in small letters and without a leading `@`. `catch_all` takes everything.

The program runs the migrations of the directory `migrations` when it starts.

## Deliveries

A request has the body of the webhook, byte for byte, and these headers:

```text
x-resend-router-delivery-id
x-resend-router-event-id
x-resend-router-attempt
x-resend-router-destination
x-resend-router-timestamp
x-resend-router-signature
```

The signature is `v1,` and

```text
base64(hmac_sha256(ROUTER_SIGNING_SECRET, "{timestamp}.{delivery_id}.{event_id}.{destination}.{attempt}.{raw_body}"))
```

# solid

A small CLI for LDP CRUD over [Solid](https://solidproject.org/) pods. Log in with Solid-OIDC,
then `ls`/`cat`/`put`/`rm` resources like a remote filesystem.

```sh
solid login                    # interactive OIDC login, opens a browser
solid ls /                     # list a container
solid cat notes/todo.md        # print a resource to stdout
solid put notes/todo.md        # write/overwrite from stdin (-t sets the Content-Type)
solid rm  notes/todo.md        # delete
solid profiles                 # list profiles, the default one marked
solid cat work:notes/todo.md   # a path on the pod of the profile `work`
solid --profile work cat notes/todo.md
```

A path is resolved against the pod base from `login`; a full URL is taken as it is.

## Layout

- `src/` is the library. Every function states what it returns or changes, and Verus proves it.
- `app/` is the program: the terminal, the file system, the browser and the network.
- `tests/` runs the library with the crates it calls.

The library, module by module:

- `text`: character sequences, searching, splitting and trimming.
- `turtle`: the children of a container, read from its Turtle description.
- `resource`: URLs of resources, media types, and what is shown for a container.
- `percent`: percent-encoding of query components.
- `b64`, `json`: unpadded base64url, and compact JSON objects.
- `crypto`, `key`, `clock`: digests, random text, the P-256 key, the time.
- `dpop`: proofs of possession.
- `session`: the session, its tokens, and when to renew them.
- `login`, `callback`: discovery, registration, authorization, the redirect, the exchange.
- `request`: requests to a pod and what is made of the answers.
- `profile`, `prompt`: which session a path addresses; questions on the terminal.
- `error`: what can go wrong, and the messages.

The functions named `law_...` state what holds across functions: decoding undoes encoding, a proof
is good for one request only, a callback is read as it was written, and so on.

What the library takes on trust stands at the calls into `base64`, `p256`, `rand`, `serde_json`,
`sha2` and a few functions of `std`; the comment above each says what is claimed of it.

## Session

Stored at `~/.config/solid/session.json` (override with `$SOLID_SESSION`). Profiles stand in
`profiles/<name>.json` beside it, and `config.json` names the default one as
`{"default":"<name>"}`; `$SOLID_CONFIG_DIR` moves them all. A session holds the access token, the
refresh token, and the DPoP key. Delete the file to log out.

# kiro_sso

Sign-in through the Kiro hosted portal, for social accounts (Google, GitHub) and for
enterprise identity providers (Azure AD, Microsoft 365).

A sign-in runs over a small HTTP server on this machine. The portal sends the browser
to `/signin/callback`. A social account brings a code, which is exchanged for a token.
An enterprise account brings the description of an identity provider; the server checks
it against a list of domains, fetches its discovery document, and sends the browser on.
The provider sends the browser to `/oauth/callback` with a code, which is exchanged at
the provider's token endpoint.

`src/` is the sign-in itself, verified with Verus and free of I/O:

- `server` is the state machine of the two legs; `laws` holds what is true of every run.
- `allowlist` decides which URLs are trusted; `idp` builds requests to a provider and
  judges its replies; `error` has the failures and their messages.
- `request`, `query`, `percent`, `pages` read requests and write responses.
- `jwt` and `base64` find the e-mail address in a token.
- `bind` picks the address to listen on.
- `text` has the string functions that the others share; `letter_case` has what is true
  of texts in small letters.
- `outside` has every function of another crate, or of the standard library, that is
  called on trust, with what is assumed of it.

`app/` binds ports, reads and writes sockets, and sends the requests. The program around
it implements `Backend`. `tests/` runs the library on concrete values.

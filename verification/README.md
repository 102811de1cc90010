# stammw_blog

A small blog: posts written in Markdown, comments, user registration and
login with signed cookies. The logic of the blog is a Verus library whose
functions carry contracts and proofs; the web server around it is ordinary
Rust.

## Layout

- `src/` — the verified library.
  - `pagination.rs`: page links of a listing (`PaginationParams::context`),
    with the laws that the links stay within the pages and the pages cover
    the items.
  - `forms.rs`: form errors (`FieldError`, `FormErrors`).
  - `models.rs`: posts, users, comments; registration checks
    (`NewUser::validate`); Markdown rendering of a post.
  - `markdown.rs`: Markdown to HTML (pulldown-cmark).
  - `claims.rs`: the JSON text carried in a user token (written with
    serde_json), with the proof that a text names at most one user, and the
    reading of the user out of a decoded token's payload.
  - `auth.rs`: user tokens signed as JSON web tokens (frank_jwt) and
    password digests (Argon2i, base64).
  - `db.rs`: what the store's raw rows become: posts with authors, comments
    grouped by post, comments with authors.
  - `controllers/`: the decisions of the request handlers — post forms,
    slugs, publication dates, where to go after saving, comments, login,
    registration conflicts.
- `tests/` — tests of the library.
- `app/` — the Rocket application: routes, request guards, templates, the
  PostgreSQL store (diesel), and serde copies of the library's records.

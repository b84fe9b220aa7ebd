# stela

A single-binary blog engine, split in two:

- `src/` is the library, verified with Verus: which stored posts are usable
  (`slug`, `post`), what the index, the post pages and the feed hold and in
  which order (`feed`, `markdown`, `order`), the admin addresses (`routes`),
  who may sign in (`admin`), the session token and cookie (`token`, `cookie`),
  every HTTP answer (`reply`), and the JSON embedded in the editor page
  (`script`). `laws` states what holds across them.
- `app/` is the program around it: command line, Lithair server, the post
  store, Tera rendering and the asset store.

The theme (Tera templates and `style.css`) is read from the folder given by
`--theme` when the server starts.

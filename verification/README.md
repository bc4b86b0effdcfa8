# redlib

The request logic behind a Reddit front end's thread pages, user pages and its JSON API,
proved with Verus.

- `src/` is the verified library.
  - `model`: posts, comments, authors, flairs and awards as plain values.
  - `thread`: building a thread's comment tree from its listing nodes (removed comments,
    parent names, highlighting, filtering, collapsing) and searching it.
  - `thread_page`: the Reddit path of a thread page, the comment sort, the comment search
    read from the page URL, the URL without the search.
  - `comment_page`: the API's comment listing: the tree flattened in pre-order, a stable sort
    newest first, pages after a given comment.
  - `user_posts`, `post_fetch`, `profile`: the API's user-post listing, the batched gathering
    of posts back to a point in time, the user page's paths and flags.
  - `feed`: the entries of a user's RSS feed.
  - `query`: reading the API's query parameters.
  - `text`, `number`: string and decimal operations with their specifications.
- `app/` holds the HTTP handlers (the JSON API, the thread and user pages, the RSS feed),
  reading Reddit's JSON into the library's types and writing the API's JSON, errors included;
  it reaches the rest of the server through the `Site` trait.
- `tests/` runs the library on concrete values.

# backend

The server of a small product catalogue: users list products with their
images, rate each product once and comment on products; images live in a
separate bucket service.

- `src/` is the verified library: reading the deployment
  environment, the startup decisions (listening address, state set-up,
  bucket key), the checksum of the generated interfaces, the bucket client's
  credentials, addresses and image encodings, assembling the product list
  from query rows and finished downloads, the rating rule, and what each
  error answers.
- `app/` is the program around it: the axum routes and handlers, the
  database queries, the HTTP calls to the bucket service, files, processes
  and environment variables.
- `tests/` runs the library on concrete values.

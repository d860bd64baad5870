# rust-fpm

A FastCGI process manager for PHP. It listens on a Unix socket, as php-fpm does, and runs PHP inside
its own process. The decisions it takes are in a library verified with Verus; sockets, threads and
the C calls into PHP are around it.

```bash
rust-fpm --listen /var/run/php-fpm.sock --workers 4 --php-ini /etc/php/php.ini
```

## Layout

- `src/` is the verified library.
  - `config`: the command line, and the settings of pools
  - `request`, `params`: from FastCGI parameters to the parameters of a request
  - `php_sapi`: what PHP's callbacks answer, and what they capture
  - `fastcgi`: taking up a request, and the bytes that go back
  - `php_instance`: the order of calls when PHP runs one request
  - `pool_manager`, `privileges`: the socket of a pool, and giving up root
  - `serving`: the order of events from the pid file to the shutdown signal
  - `worker_pool`: worker threads, each with a PHP instance of its own
  - `number`, `text`, `events`: integers in text, comparison, ASCII case, UTF-8, series of events
- `tests/` runs the library on concrete values.
- `app/` is the program: it does the input and output, and asks the library what to do.

Five processes alternate work in the world with decisions: the server as a whole, setting up a
socket, giving up root, a request in PHP, and a worker thread. Each is a state machine in `src/` with a `step` function, and a loop in `app/` that
performs the actions and reports the events.

## What is taken on trust

A few outside functions are used with contracts that are stated, not proved: `String::push`,
`std::str::from_utf8`, `String::from_utf8_lossy` and `nix::unistd::Uid::is_root`.

# proxy_checker

A pool of public proxies. Source scripts yield `address:port` entries; these are parsed
into proxies, checked over the network for the protocol they speak, the anonymity they
give and whether they reach Google, and the working ones are kept in a cache that the
web server lists.

- `src/` is the verified library: the entry parser and the text forms of proxies
  (`proxies`, `text`), the cache (`cache`), the decisions of a check
  (`proxies::checker`), the steps around it (`pipeline`), the logger's filter, the
  choice of source files and the greeting.
- `app/` is the service around it: reading the scripts with Lua, the HTTP requests of
  the checks, the worker tasks, the web server and the JSON forms of the types.

# iron_spider

A small web-crawling engine. Spiders say where to start and how to read a page; a
scheduler holds the requests that wait; a downloader fetches them within a limit of
concurrent requests; spiders parse the responses into more requests and scraped items;
pipelines process the items in order of priority; a monitor shuts the engine down once
all work is done and it has stayed idle long enough.

- `src/` is the engine's logic, written in Verus and verified: the scheduler queue, the
  spider manager's bookkeeping (which spiders wait, work or are closed), the pipeline
  routes and their ordering, the downloader's decisions and counters, the shutdown rule,
  the error messages and the number and duration formatting.
- `app/` is the running engine around it: threads, channels, the async download loop, rate
  limiting, logging and the terminal dashboard.
- `tests/` exercises the library on concrete values.

# mikan

The logic of an interactive command-line downloader for
[Mikan Project](https://mikanani.me) anime feeds, verified with
[Verus](https://github.com/verus-lang/verus), and the program around it.

The library in `src/` reads feeds and pages, sorts and selects episodes, names
files, keeps profiles and paths, speaks qBittorrent's web interface, and decides
what a run asks and does next. It performs no input or output. Each dialogue and
each piece of work is a value with a `step`: it takes what has happened and gives
what to print and what to do. The program in `app/` does those things.

| Module | What it holds |
|---|---|
| `text` | Characters, trimming, searching, numbers, order |
| `sanitize` | Text that is safe to print, names that are safe for files |
| `xml`, `feed` | XML events by `quick_xml`, and the feed that they write |
| `page`, `mikan` | Elements of pages by `scraper`, and the shows and groups that they list |
| `select` | The order of episodes, and the choice among them |
| `display` | Sizes, rows, summaries, lines of progress |
| `export` | The list of URLs |
| `profiles`, `config` | Connection profiles, and what is remembered between runs |
| `proxy` | The address of a proxy, by `reqwest` |
| `qbt` | Requests to qBittorrent, and what its answers mean |
| `download`, `batch` | One download, and the work on all episodes |
| `cli` | What the arguments ask for |
| `prompts` | What questions offer and accept |
| `search`, `setup`, `flow` | The dialogues: to a feed, to a qBittorrent, to an export |
| `headless`, `commands` | A run without questions, and the profile commands |

Every public function has an exact contract. What holds of several of them
together stands in proof functions whose names begin with `law_`. Calls into other
crates stand behind small functions marked `#[verifier::external_body]`, whose
comments say what is taken on trust.

## Exit codes

- `0`: success, also where nothing was selected or the user cancelled.
- `1`: done, but an episode or the list failed, or the run ended with an error.
- `2`: the arguments cannot be used.

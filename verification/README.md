# Oxidize

A small command line program that checks whether Oxide/uMod plugins for Rust servers (`.cs`) compile, before
they are put on a live server, with the logic in a library that is verified with Verus.

## Usage

```sh
oxidize <PATH>
```

`<PATH>` is a single plugin file or a folder of plugins.

| Flag | Description |
|------|-------------|
| `-o, --output <human\|json>` | Output format (default: `human`) |
| `-s, --staging` | Check against the Rust staging branch |
| `-y, --yes` | Download missing libraries without asking |

```
OK    Vanish
FAIL  Custom Craft Times (3 errors)
        error CS0117: 'MemoryExtensions' does not contain ...
```

With `--output json` the report is a JSON list with an object for each plugin: its `name`, its `author`, its
`status` (`ok`, `fail` or `error`) and its `errors`.

The program needs the .NET 10 runtime, and
[DepotDownloader](https://github.com/SteamRE/DepotDownloader/releases) in the `tools` folder below its data
folder; it prints the exact path if it is missing there. The Rust server libraries, Oxide and the compiler are
downloaded on the first run.

## Layout

`src/` is the library. Every function in it has a contract that Verus proves.

| Module | What it is about |
|--------|------------------|
| `branch` | the branches, their folders and their preprocessor symbols |
| `plugin` | the name and the author that a plugin's source declares |
| `compile` | requests to the compiler, its replies, and the compilation of one and of all plugins |
| `setup` | the steps that install what compiling needs |
| `utils` | finding files by their extension |
| `source` | what is checked, given a path |
| `report` | the report, for a human reader and as JSON |
| `path`, `text`, `bytes`, `json` | file names, pieces of text, UTF-8 and C strings, JSON texts |

What is trusted without proof: `serde_json::to_string` on a string (`json`), `std::str::from_utf8` and
`String::from_utf8_lossy` (`bytes`), and `String::push` (`text`).

`app/` is the program around it: arguments, files, processes, downloads, threads and the .NET runtime.
`tests/` runs the library on concrete values.

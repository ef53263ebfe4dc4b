# InstaLock

InstaLock sits next to the League of Legends client. It accepts ready checks,
picks and bans from the user's lists, starts the queue when the lobby is ready,
and shares summoner-spell timers with the rest of the team through a relay.

`src/` is the library: every decision the program makes, with contracts that
Verus proves. It touches neither the network nor the disk nor the clock.
Snapshots, settings, messages and the time go in; verdicts, plans, requests and
payloads come out.

| module | what it decides |
| --- | --- |
| `engine` | what each event of the client changes, and what it calls for |
| `selection`, `draft` | which champion to pick or ban, when, and what to make of the answer |
| `queue`, `auto_queue` | whether to start a search, and when a cancel holds |
| `settings`, `update` | the per-mode and per-role lists, one-shots, what a change sets off |
| `lol_state`, `mode`, `queues`, `phases` | what the client is doing |
| `champions`, `spells`, `overlay`, `summoners` | names, cooldowns and the enemy team |
| `panel`, `appearance` | what is shown |
| `relay`, `sync` | rooms of shared timers, and staying connected to them |
| `lcu`, `actions`, `launcher` | finding the client, reading its messages, what to ask of it |
| `json`, `names`, `text`, `time` | documents, maps by name, strings and spans |

What is taken on trust is small: parsing JSON (`serde_json`), Base64 (`base64`),
and a handful of `std` functions on strings and characters. Each is declared once,
in `json`, `lcu` and `text`, with what is claimed of it. Parsing and Base64 are
named rather than described; Unicode case mapping is named, and described on ASCII.

Spans of time are whole milliseconds and opacities are thousandths.

`app/` is the program around the library: the sockets, the files, the windows and
the conversion of payloads. `instalock relay` runs the relay server.

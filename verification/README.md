# jj-navi

Workspaces and lanes for [jj](https://github.com/jj-vcs/jj): one workspace per
line of work, a declared write-set for each, and landings that cannot conflict.

The library under `src/` decides; the program under `app/` reads, runs `jj` and
prints. Every decision of the library has a contract that Verus proves, and
what holds across several of them is stated as a proof function whose name
begins with `law_`.

| Where | What |
| --- | --- |
| `types`, `error`, `text`, `order` | names, paths, configuration, errors, texts and sorting |
| `jj`, `jj_output`, `revset` | what `jj` is asked, and what its answers mean |
| `lane_store`, `state`, `storage`, `config`, `timestamp` | what is kept on disk |
| `lane_rules`, `lane_ops`, `lane_sync`, `lane_land`, `lane_render` | lanes, from opening to landing |
| `engine`, `heal`, `resolve`, `union_merge`, `abandon`, `doctor` | analysis and repair of a repo |
| `cli`, `commands`, `switch`, `init`, `directive` | the commands and the shell |

Where something outside has to be waited for, the library is a function from
what is known so far to the next step, and the program carries the step out.
Calls into other crates stand behind small functions whose contracts say what
is believed of them; their doc comments name the call.

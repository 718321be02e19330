# arrow — worktree hygiene

Which git worktrees are safe to remove, how much disk that would reclaim, and
the exact (shell-quoted) command to do it.

- `src/` — the library. Its functions are proved against their contracts,
  except the trusted items that call std or `serde_json`, whose contracts are
  taken on trust: `char::is_whitespace` (an `assume_specification`),
  `parse_i64`, `parse_u64`, `i64_text`, `chars_of`, `string_of`, `lossy_text`
  (`text`); `file_name_of` (`analyze`); `clock_now`, `whole_secs_since_epoch`
  (`gitout`); `parse_json`, `json_tree` (`json`); `sort_entries`, `sort_repos`
  (`order`). The modules:
  - `porcelain`: reading `git worktree list --porcelain`;
  - `branch`: finding a repository's default branch;
  - `analyze`: judging one worktree (reclaimable only on a fact git reports,
    never when locked);
  - `audit`, `order`: which repositories to audit, totals, and listing order;
  - `cleanup`: `git worktree remove` / `prune` with a dry run first;
  - `gitout`, `json`, `text`: reading what git, `du`, `gh` and the clock answer;
  - `report`: what the terminal summary shows;
  - `watch`: the decisions of the directory watcher.
- `app/` — the command line: runs git, `du`, `gh` and the watcher, prints text
  or JSON.
- `tests/` — the library's tests.

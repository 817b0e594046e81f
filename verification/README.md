# runner-manager

The decisions of a manager for self-hosted GitHub Actions runners, as a verified
library: which release a host updates to and how its binary is replaced, where
runners keep their workspaces, and how a WSL distribution becomes, stays and
stops being a second runner host.

`src/` is the library. Every item in it is checked by Verus. The work that
alternates with the outside world is written as step functions: a step says what
to do next, the caller does it and hands back what happened.

| Modules | What they decide |
|---|---|
| `supervisor` | when the parent of a daemon restarts its child |
| `release`, `origin`, `channel`, `paths` | which archive a host needs, where it comes from, and how this copy was installed |
| `archive`, `replace`, `update` | the digest, the file inside the archive, the replacement, and the order of an update |
| `workspace`, `workspace_change`, `workspace_report` | runner roots, workspace settings, and what their commands print |
| `wsl_error`, `wsl_status`, `wsl_report`, `wsl_commands` | a distribution's state, and `wsl list`, `status`, `detach` and sign-in |
| `provision` | the stages of `wsl install` |
| `proxy` | `--host wsl:NAME` |
| `hold` | `wsl-host hold` |
| `watchdog` | the recovery of a distribution that stopped answering |
| `failure`, `text` | failures, and the text functions that everything above uses |

What holds of several functions together is stated as a proof function whose
name begins with `law_`.

The calls into other crates stand behind small functions marked
`external_body`; the comment above each one says what is believed of the call.

`app/` is the program around the library: the command line, files, processes and
the network. `app/adapters.rs` is the one file that uses the workspace's own
platform, domain and GitHub crates.

# rustprox

Sets, removes and reports proxy settings for npm, Git, the Bash and Zsh
start-up files, APT, and the macOS and Windows system proxies.

- `src/` is the verified library: the validation of the `host:port` address
  (`proxy`), the request that the command line makes (`cli`), the lines that
  each configuration file gains when a proxy is set and loses when it is
  removed, and how a status check reads it (`config`), the choice of the home
  directory (`home`), and the reading of `networksetup` and `reg` output
  (`system`). `text` and `lines` model strings as character sequences
  (`contains`, `split`, `trim`, `str::lines`, joining lines).
- `app/` is the program: it reads the arguments, the environment and the
  files, runs `git`, `networksetup`, `reg` and `setx`, and prints.
- `tests/` runs the library on concrete inputs.

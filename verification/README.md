# commitfmt

Parsing, linting and formatting of conventional commit messages, with the
library's behaviour stated in Verus contracts and proved.

Layout:

- `src/cc` — the message model: header (`type(scope)!: description`), body
  and footers, parsed from text and written back.
- `src/linter` — word and text cases, the lint rules, rule sets, violations
  and a lint run (`Check`).
- `src/tpl` — footer value templates: parsing, and rendering step by step.
- `src/format` — adding configured footers to a message.
- `src/workspace` — the configuration: values of the configuration file
  (its tables are maps of the `toml` library, behind contracts),
  rule settings, merging of configurations, commit settings.
- `src/git` — what the git integration computes: key and hook names, git's
  output, commits of a log.
- `src/pattern` — regular expressions of the `regex` library, behind
  contracts.
- `app/` — files, git processes, shell commands, the environment, and the
  serde reading of the configuration into its typed form, around the library.
- `tests/` — tests of the library.

Behaviour to note: a lint run with the scope-min-length rule on and a minimum
above 0 reports a message without a scope as too short, while the rule on its
own (`linter::rules::header::scope_min_length`) passes over an empty scope.

A command in a footer template fails the rendering when it exits with a code
other than 0 (`Template::supply_command_result`), and footers render their
templates only where the value is used (`format::needs_rendering`,
`format::append_footer`).

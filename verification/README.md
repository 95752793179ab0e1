# aws-sso-tools

Automatic AWS SSO login: log in with `aws sso login` only when the current
profile uses SSO and its cached token is missing, expired, or about to expire.

- `src/` is the verified library (Verus). It holds every decision the tools
  make: reading `~/.aws/config` (`ini`), finding a profile's token cache file
  and expiry (`sso`), the profile in effect (`active_profile`), whether to log
  in and the message that says why (`should_login`), spotting the device code
  in the output of `aws sso login` (`login_code`), and how the tools pass exit
  statuses on (`flow`, `home`).
- `app/` is one executable that acts as each tool (`aws-sso-run`,
  `aws-sso-maybe-login`, `aws-sso-should-login`, `aws-sso-login-showing-code`,
  `aws-sso-show-code`, `docker-credential-sso-ecr-login`) according to the name
  it is invoked under. `aws-sso-show-code` prints the code to standard
  error: a popup window on macOS needs an Objective-C helper compiled by a
  build script, which this crate does not have. `app/` reads files, the environment and the clock, runs
  processes, and hands plain values to the library.
- `tests/` runs the library on concrete inputs.

# nodenet

The decisions of NodeNet, a controller for SSH-managed VPN servers and their
3x-ui panels, as a library verified with Verus.

`src/` holds what the application decides and computes: the configuration
and its edits, the keychain accounts and the `security` arguments, the
command lines `ssh` and `sftp` are run with and what their outcome is taken
to be, the retry rule, the alerts (a server down, a CPU high for a minute, a
client over its limit, each reported once), the encrypted event log, the
monitor agent's files and commands, the steps of an alert poll, the search
for a panel's setup, the file name of a new SSH key, the metrics report, the
SSL certificate report, the 3x-ui session steps, inbounds, clients and share links, the
Xray routing rules, trust in host keys on first use, and the status-bar
menu. Every public function states its result in its contract; `laws.rs`
states what holds across calls.

`app/` is a command-line front end around it: files, the Keychain, `ssh`
and HTTP, and the records with their serde derives.

`tests/` runs the library on concrete values.

# tdops

Tailscale + DigitalOcean droplet operations from one command line.

`src/` is the verified library: the configuration and its case-insensitive droplet
lookup, setting up a configuration from a droplet listing, the DigitalOcean API requests
and the wait for an action, the power plans (snapshot before power-off), the `tailscale`
invocations (local or over ssh), and the status table rows. `app/` is the program around it:
argument parsing, the configuration file, HTTP, processes and terminal output.

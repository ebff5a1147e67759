# coop_cloud_mdns_publisher

Publishes an mDNS address record (`<app>-<host>.local`) for each Co-op Cloud
app running on this server, through the Avahi daemon, and withdraws a record
once its app has been gone for a grace period.

- `src/` is the verified library (Verus):
  - `avahi.rs`: Avahi's server states and their labels, the errors of talking
    to Avahi, and the status report as a sequence of D-Bus queries and replies.
  - `published_apps.rs`: which apps have a record, when an absent app's record
    is due to be withdrawn, and the laws of that bookkeeping.
  - `publish.rs`: the checks before publishing, record names, and one poll of
    the publish loop.
  - `clock.rs`: the monotonic clock the grace period is measured with.
- `app/` is the `ccmdns` command line program: D-Bus calls, the Docker app
  listing, logging and the polling loop, around the library.

# sep2_client

A client library for IEEE 2030.5 (Smart Energy Profile 2.0) whose core is verified with Verus.

- `src/` is the verified library: the security function set (LFDI/SFDI and the certificate
  profile), time arithmetic and time offsets, the poll queue, reading and describing HTTP
  responses, the response rules of Table 27, event instances and the schedule decisions shared
  by the DER, DRLC, messaging and pricing function sets, and the routing of the test servers.
- `app/` is the I/O around it: the `hyper` client and notification server, TLS configuration,
  the background tasks of polls and schedules, file access, and conversions from the
  `sep2_common` resources to the plain values the library reads.
- `tests/` exercises the library on concrete values.

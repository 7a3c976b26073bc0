# tonic_mock

Mock gRPC clients for tests. A client is configured with responses for the methods of
services: static ones, and ones for the requests that meet a condition, each with metadata and
a delay. It then answers requests without any gRPC call.

`src/` holds the clients, verified with Verus: which handler answers a request, with which
bytes, headers and status, and how long the caller should wait. It works on bytes and waits for
nothing. The functions that encode and decode messages are parameters, and the contracts speak
of what those functions return. Trusted are the calls into `http` (header names, values and
maps), into `tonic` (metadata maps, copies of statuses) and into `tokio` (the text of a lock error).

`app/` makes the clients shareable and asynchronous, for protobuf messages and as a `tower`
service.

A request gets the newest conditional response for its method whose condition it meets. A static
response is the default for its method: the newest one answers the requests that meet no
condition, and those that an older condition cannot decode.

# opendal_remote

Configuration and path logic for a storage backend built on the `opendal`
operator, with every contract proved.

- `src/path.rs`: the storage form of a path, and its laws.
- `src/map.rs`: `ConfigMap`, an ordered option map kept sorted by key.
- `src/services/`: the service configs (B2, FTP, OneDrive, S3) and their options.
- `src/config.rs`: `Throttle` (read from text such as `10kiB,10MB`) and `RemoteConfig`.
- `src/operator.rs`: the operator with a record of its service, options and layers.
- `src/backend.rs`: building a backend from a config, and the decisions its
  file operations take.
- `app/`: serde forms of the configs, and the asynchronous file operations,
  readers and writers over the operator.

//! A storage backend over an operator of the `opendal` crate: how it is
//! built from a [`RemoteConfig`], and the decisions its file operations take.
use vstd::prelude::*;

use crate::config::{RemoteConfig, Throttle};
use crate::path::{path_to_str, storage_path};
use crate::map::{keys_ascending, pairs_map};
use crate::operator::{
    build_operator, with_concurrent_limit, with_logging, with_throttle, ServiceOperator,
};
use crate::services::{source_options, source_scheme, RemoteSource, ServiceScheme};

verus! {

/// The bits of a random (version 4, RFC 4122 variant) UUID, read as a
/// big-endian number: version nibble 4 and variant bits `10`.
pub open spec fn random_uuid_bits(u: u128) -> bool {
    (u >> 76u128) & 0xfu128 == 4u128 && (u >> 62u128) & 0x3u128 == 2u128
}

/// A fresh random identifier: `uuid::Uuid::new_v4()`, as its 128 bits
/// (`Uuid::as_u128`).  The value is random; `new_v4` sets the version and
/// variant bits (`rng & ..4FFFBFFF.. | ..40008000..`), which is all that is
/// stated.
#[verifier::external_body]
fn new_id() -> (u: u128)
    ensures
        random_uuid_bits(u),
{
    uuid::Uuid::new_v4().as_u128()
}

/// A layer that the backend puts around its operator.
#[derive(Clone, Copy, Debug, PartialEq, Eq, Structural)]
pub enum Layer {
    /// Bandwidth throttling, in bytes per second, with a burst size.
    Throttle { bandwidth: u32, burst: u32 },
    /// A limit on the number of concurrent operations.
    ConcurrentLimit(usize),
    /// Logging of every operation.
    Logging,
}

/// The layers of a config, innermost first: throttling when a throttle is
/// set, then a concurrency limit when a thread count is set, and logging
/// always, outermost.
pub open spec fn layer_plan(c: RemoteConfig) -> Seq<Layer> {
    let throttle = match c.bandwidth {
        Some(t) => seq![Layer::Throttle { bandwidth: t.bandwidth, burst: t.burst }],
        None => Seq::<Layer>::empty(),
    };
    let limit = match c.max_threads {
        Some(n) => seq![Layer::ConcurrentLimit(n as usize)],
        None => Seq::<Layer>::empty(),
    };
    throttle + limit + seq![Layer::Logging]
}

impl RemoteConfig {
    /// The layers to put around the operator, innermost first.
    pub fn layers(&self) -> (v: Vec<Layer>)
        ensures
            v@ == layer_plan(*self),
    {
        let mut v: Vec<Layer> = Vec::new();
        match self.bandwidth {
            Some(t) => v.push(Layer::Throttle { bandwidth: t.bandwidth, burst: t.burst }),
            None => {},
        }
        match self.max_threads {
            Some(n) => v.push(Layer::ConcurrentLimit(n as usize)),
            None => {},
        }
        v.push(Layer::Logging);
        assert(v@ =~= layer_plan(*self));
        v
    }

    /// The throttle, if any, has positive bandwidth and burst, as the
    /// throttling layer requires.
    pub open spec fn throttle_is_positive(self) -> bool {
        self.bandwidth matches Some(t) ==> t.bandwidth > 0 && t.burst > 0
    }
}

/// Logging is always the outermost layer, and throttling, when present,
/// comes before the concurrency limit.
pub proof fn lemma_layer_order(c: RemoteConfig)
    ensures
        layer_plan(c).len() >= 1,
        layer_plan(c).last() == Layer::Logging,
        forall|i: int| 0 <= i < layer_plan(c).len() - 1 ==> layer_plan(c)[i] != Layer::Logging,
        c.bandwidth is Some ==> layer_plan(c)[0] is Throttle,
        c.bandwidth is None && c.max_threads is Some ==> layer_plan(c)[0] is ConcurrentLimit,
        layer_plan(c).len() == 1 + (if c.bandwidth is Some { 1int } else { 0int }) + (
        if c.max_threads is Some {
            1int
        } else {
            0int
        }),
{
}

/// The layers carry the config's settings: the concurrency limit is there
/// exactly when a thread count is set, once, with that many permits; the
/// throttle is there exactly when a throttle is set, once, with its
/// bandwidth and burst.
pub proof fn lemma_layers_carry_settings(c: RemoteConfig)
    ensures
        forall|i: int|
            0 <= i < layer_plan(c).len() && (#[trigger] layer_plan(c)[i] is ConcurrentLimit) ==> (
            c.max_threads matches Some(n) && layer_plan(c)[i] == Layer::ConcurrentLimit(
                n as usize,
            )),
        forall|i: int|
            0 <= i < layer_plan(c).len() && (#[trigger] layer_plan(c)[i] is Throttle) ==> (
            c.bandwidth matches Some(t) && layer_plan(c)[i] == (Layer::Throttle {
                bandwidth: t.bandwidth,
                burst: t.burst,
            })),
        forall|i: int, j: int|
            0 <= i < j < layer_plan(c).len() ==> !(#[trigger] layer_plan(c)[i] is ConcurrentLimit
                && #[trigger] layer_plan(c)[j] is ConcurrentLimit),
        forall|i: int, j: int|
            0 <= i < j < layer_plan(c).len() ==> !(#[trigger] layer_plan(c)[i] is Throttle
                && #[trigger] layer_plan(c)[j] is Throttle),
        c.max_threads matches Some(n) ==> layer_plan(c).contains(Layer::ConcurrentLimit(n as usize)),
        c.bandwidth matches Some(t) ==> layer_plan(c).contains(
            Layer::Throttle { bandwidth: t.bandwidth, burst: t.burst },
        ),
{
    let p = layer_plan(c);
    match c.max_threads {
        Some(n) => {
            let k: int = if c.bandwidth is Some { 1 } else { 0 };
            assert(p[k] == Layer::ConcurrentLimit(n as usize));
        },
        None => {},
    }
    match c.bandwidth {
        Some(t) => {
            assert(p[0] == Layer::Throttle { bandwidth: t.bandwidth, burst: t.burst });
        },
        None => {},
    }
}

/// The name under which the storage layer knows a service.
pub open spec fn scheme_name(s: ServiceScheme) -> Seq<char> {
    match s {
        ServiceScheme::B2 => "b2"@,
        ServiceScheme::Ftp => "ftp"@,
        ServiceScheme::Onedrive => "onedrive"@,
        ServiceScheme::S3 => "s3"@,
    }
}

impl ServiceScheme {
    /// The name under which the storage layer knows this service.
    pub fn name(&self) -> (r: &'static str)
        ensures
            r@ == scheme_name(*self),
    {
        match self {
            ServiceScheme::B2 => "b2",
            ServiceScheme::Ftp => "ftp",
            ServiceScheme::Onedrive => "onedrive",
            ServiceScheme::S3 => "s3",
        }
    }
}

/// Why a backend operation failed.
#[derive(Debug)]
pub enum BackendError {
    /// The storage layer reported an error.
    Service(opendal::Error),
    /// The item does not exist.
    NotFound,
    /// The operation is not supported by this backend.
    Unsupported,
}

/// An operator for the service of `src`, built from its options: the
/// operator is recorded as made for the source's service name, from its
/// options in ascending key order, with no layers yet.  Whether the build
/// succeeds is up to the storage layer and the environment.
pub fn service_operator(src: &RemoteSource) -> (r: Result<ServiceOperator, opendal::Error>)
    ensures
        r matches Ok(op) ==> {
            &&& op.scheme_view() == scheme_name(source_scheme(*src))
            &&& pairs_map(op.options_view()) == source_options(*src)
            &&& keys_ascending(op.options_view())
            &&& op.layers_view() == Seq::<Layer>::empty()
        },
{
    let scheme = src.scheme();
    let options = src.clone().to_map().into_pairs();
    build_operator(scheme.name(), options)
}

/// `OpenDALBackend` contains a wrapper around an operator of the `opendal`
/// library.
pub struct OpenDALBackend {
    id: u128,
    name: String,
    operator: ServiceOperator,
    config: RemoteConfig,
}

impl OpenDALBackend {
    /// The backend's identifier, the 128 bits of a UUID.
    pub closed spec fn id_view(&self) -> u128 {
        self.id
    }

    /// The backend's name.
    pub closed spec fn name_view(&self) -> Seq<char> {
        self.name@
    }

    /// The config the backend was built from.
    pub closed spec fn config_view(&self) -> RemoteConfig {
        self.config
    }

    /// The operator the backend's operations go through.
    pub closed spec fn operator_view(&self) -> ServiceOperator {
        self.operator
    }

    /// Creates a new [`OpenDALBackend`] with the specified config.
    ///
    /// The operator is built for the config's service from the config's
    /// options, then wrapped in the layers of [`RemoteConfig::layers`], and
    /// the backend gets a fresh random version-4 identifier.
    ///
    /// # Errors
    /// If the storage layer fails to initialize.
    pub fn new(name: &str, config: RemoteConfig) -> (r: Result<OpenDALBackend, BackendError>)
        requires
            config.throttle_is_positive(),
        ensures
            match r {
                Ok(b) => {
                    &&& b.name_view() == name@
                    &&& b.config_view() == config
                    &&& random_uuid_bits(b.id_view())
                    &&& b.operator_view().scheme_view() == scheme_name(source_scheme(config.src))
                    &&& pairs_map(b.operator_view().options_view()) == source_options(config.src)
                    &&& keys_ascending(b.operator_view().options_view())
                    &&& b.operator_view().layers_view() == layer_plan(config)
                },
                Err(e) => e is Service,
            },
    {
        let built = service_operator(&config.src);
        let id = new_id();
        let r = OpenDALBackend::assemble(name, config, built, id);
        proof {
            if built is Ok {
                assert(Seq::<Layer>::empty() + layer_plan(config) =~= layer_plan(config));
            }
        }
        r
    }

    /// The backend named `name` for `config`, given the outcome of building
    /// its operator and its identifier: a build error is passed on; a built
    /// operator gets the config's layers, innermost first, after any it has.
    pub fn assemble(
        name: &str,
        config: RemoteConfig,
        built: Result<ServiceOperator, opendal::Error>,
        id: u128,
    ) -> (r: Result<OpenDALBackend, BackendError>)
        requires
            built is Ok ==> config.throttle_is_positive(),
        ensures
            match built {
                Err(e) => r == Err::<OpenDALBackend, BackendError>(BackendError::Service(e)),
                Ok(op) => r matches Ok(b) && {
                    &&& b.id_view() == id
                    &&& b.name_view() == name@
                    &&& b.config_view() == config
                    &&& b.operator_view().scheme_view() == op.scheme_view()
                    &&& b.operator_view().options_view() == op.options_view()
                    &&& b.operator_view().layers_view() == op.layers_view() + layer_plan(config)
                },
            },
    {
        let mut operator = match built {
            Ok(op) => op,
            Err(e) => return Err(BackendError::Service(e)),
        };
        let ghost start = operator;
        let layers = config.layers();
        let n = layers.len();
        for i in 0..n
            invariant
                n == layers@.len(),
                layers@ == layer_plan(config),
                config.throttle_is_positive(),
                operator.scheme_view() == start.scheme_view(),
                operator.options_view() == start.options_view(),
                operator.layers_view() == start.layers_view() + layers@.take(i as int),
        {
            match layers[i] {
                Layer::Throttle { bandwidth, burst } => {
                    assert(layers@[i as int] == layer_plan(config)[i as int]);
                    proof {
                        lemma_plan_throttle(config, i as int);
                    }
                    operator = with_throttle(operator, bandwidth, burst);
                },
                Layer::ConcurrentLimit(permits) => {
                    operator = with_concurrent_limit(operator, permits);
                },
                Layer::Logging => {
                    operator = with_logging(operator);
                },
            }
            assert(layers@.take(i + 1) =~= layers@.take(i as int).push(layers@[i as int]));
            assert(start.layers_view() + layers@.take(i + 1) =~= (start.layers_view()
                + layers@.take(i as int)).push(layers@[i as int]));
        }
        assert(layers@.take(n as int) =~= layers@);
        Ok(OpenDALBackend { id, name: String::from_str(name), operator, config })
    }

    /// The backend's identifier, drawn at random when it was built.
    pub fn id(&self) -> (r: u128)
        ensures
            r == self.id_view(),
    {
        self.id
    }

    /// The backend's name.
    pub fn name(&self) -> (r: &str)
        ensures
            r@ == self.name_view(),
    {
        self.name.as_str()
    }

    /// The config the backend was built from.
    pub fn config(&self) -> (r: &RemoteConfig)
        ensures
            *r == self.config_view(),
    {
        &self.config
    }

    /// The layered operator that the backend's operations go through.
    pub fn operator(&self) -> (r: &ServiceOperator)
        ensures
            *r == self.operator_view(),
    {
        &self.operator
    }
}

impl Clone for OpenDALBackend {
    /// Another backend with the same identifier, name and config, over a
    /// handle on the same operator.
    fn clone(&self) -> (r: Self)
        ensures
            r.id_view() == self.id_view(),
            r.name_view() == self.name_view(),
            r.config_view() == self.config_view(),
            r.operator_view().scheme_view() == self.operator_view().scheme_view(),
            r.operator_view().options_view() == self.operator_view().options_view(),
            r.operator_view().layers_view() == self.operator_view().layers_view(),
    {
        OpenDALBackend {
            id: self.id,
            name: self.name.clone(),
            operator: self.operator.clone(),
            config: self.config.clone(),
        }
    }
}

/// A throttling layer in a config's plan carries the config's throttle.
proof fn lemma_plan_throttle(c: RemoteConfig, i: int)
    requires
        0 <= i < layer_plan(c).len(),
        layer_plan(c)[i] is Throttle,
    ensures
        c.bandwidth matches Some(t) && layer_plan(c)[i] == (Layer::Throttle {
            bandwidth: t.bandwidth,
            burst: t.burst,
        }),
{
}

/// The storage paths of a move or copy of `old` to `new`, given whether `old`
/// is a directory (`None` when it does not exist): both are normalised as
/// directories or both as files.
pub fn transfer_paths(old: &str, new: &str, is_dir: Option<bool>) -> (r: Result<
    (String, String),
    BackendError,
>)
    ensures
        match is_dir {
            None => r matches Err(BackendError::NotFound),
            Some(d) => r matches Ok((a, b)) && a@ == storage_path(old@, d) && b@ == storage_path(
                new@,
                d,
            ),
        },
{
    match is_dir {
        None => Err(BackendError::NotFound),
        Some(d) => Ok((path_to_str(old, d), path_to_str(new, d))),
    }
}

/// The file to overwrite with nothing when setting the length of `item` to
/// `size`: only a length of zero is supported.
pub fn truncate_target(item: &str, size: u64) -> (r: Result<String, BackendError>)
    ensures
        size != 0 ==> r matches Err(BackendError::Unsupported),
        size == 0 ==> (r matches Ok(p) && p@ == storage_path(item@, false)),
{
    if size != 0 {
        Err(BackendError::Unsupported)
    } else {
        Ok(path_to_str(item, false))
    }
}

/// Where a writer for `item` writes, and whether it appends: it appends
/// unless the file is to be truncated.
pub fn write_target(item: &str, truncate: bool) -> (r: (String, bool))
    ensures
        r.0@ == storage_path(item@, false),
        r.1 == !truncate,
{
    (path_to_str(item, false), !truncate)
}

} // verus!

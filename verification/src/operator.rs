//! The operator of the `opendal` crate, together with a record of how it was
//! made: the service and options it was built from and the layers put
//! around it.  Only the functions of this module, each a thin call into
//! `opendal`, make or change such an operator.
use vstd::prelude::*;

use crate::backend::Layer;
use crate::map::pair_views;

verus! {

#[verifier::external_type_specification]
#[verifier::external_body]
pub struct ExOperator(opendal::Operator);

#[verifier::external_type_specification]
#[verifier::external_body]
pub struct ExOpendalError(opendal::Error);

/// An `opendal` operator with the record of how it was made.
pub struct ServiceOperator {
    operator: opendal::Operator,
    scheme: Ghost<Seq<char>>,
    options: Ghost<Seq<(Seq<char>, Seq<char>)>>,
    layers: Ghost<Seq<Layer>>,
}

impl ServiceOperator {
    /// The name of the service the operator was built for.
    pub closed spec fn scheme_view(&self) -> Seq<char> {
        self.scheme@
    }

    /// The options the operator was built from, in the order they were given.
    pub closed spec fn options_view(&self) -> Seq<(Seq<char>, Seq<char>)> {
        self.options@
    }

    /// The layers put around the operator since it was built, innermost first.
    pub closed spec fn layers_view(&self) -> Seq<Layer> {
        self.layers@
    }

    /// The operator itself, for the operations that go through it.
    pub fn inner(&self) -> &opendal::Operator {
        &self.operator
    }
}

/// Builds an operator for the service named `scheme` from `options` with
/// `opendal::Operator::via_iter`.  Whether this succeeds also depends on the
/// process environment (the S3 service, for one, reads its region and
/// endpoint from it), so success is not stated; a built operator is recorded
/// as made from exactly these arguments, with no layers yet.
#[verifier::external_body]
pub(crate) fn build_operator(scheme: &str, options: Vec<(String, String)>) -> (r: Result<
    ServiceOperator,
    opendal::Error,
>)
    ensures
        r matches Ok(op) ==> {
            &&& op.scheme_view() == scheme@
            &&& op.options_view() == pair_views(options@)
            &&& op.layers_view() == Seq::<Layer>::empty()
        },
{
    let given = Ghost(pair_views(options@));
    opendal::Operator::via_iter(scheme, options).map(
        |operator|
            ServiceOperator {
                operator,
                scheme: Ghost(scheme@),
                options: given,
                layers: Ghost(Seq::empty()),
            },
    )
}

/// Adds `opendal::layers::ThrottleLayer::new(bandwidth, burst)` around the
/// operator (`Operator::layer`).  That constructor asserts that both values
/// are positive, hence the precondition.  The result is recorded as the same
/// operator with this layer added last.
#[verifier::external_body]
pub(crate) fn with_throttle(op: ServiceOperator, bandwidth: u32, burst: u32) -> (r: ServiceOperator)
    requires
        bandwidth > 0,
        burst > 0,
    ensures
        r.scheme_view() == op.scheme_view(),
        r.options_view() == op.options_view(),
        r.layers_view() == op.layers_view().push(Layer::Throttle { bandwidth, burst }),
{
    ServiceOperator {
        operator: op.operator.layer(opendal::layers::ThrottleLayer::new(bandwidth, burst)),
        scheme: op.scheme,
        options: op.options,
        layers: Ghost(op.layers@.push(Layer::Throttle { bandwidth, burst })),
    }
}

/// Adds `opendal::layers::ConcurrentLimitLayer::new(permits)` around the
/// operator (`Operator::layer`).  The result is recorded as the same operator
/// with this layer added last.
#[verifier::external_body]
pub(crate) fn with_concurrent_limit(op: ServiceOperator, permits: usize) -> (r: ServiceOperator)
    ensures
        r.scheme_view() == op.scheme_view(),
        r.options_view() == op.options_view(),
        r.layers_view() == op.layers_view().push(Layer::ConcurrentLimit(permits)),
{
    ServiceOperator {
        operator: op.operator.layer(opendal::layers::ConcurrentLimitLayer::new(permits)),
        scheme: op.scheme,
        options: op.options,
        layers: Ghost(op.layers@.push(Layer::ConcurrentLimit(permits))),
    }
}

/// Adds the default `opendal::layers::LoggingLayer` around the operator
/// (`Operator::layer`).  The result is recorded as the same operator with
/// this layer added last.
#[verifier::external_body]
pub(crate) fn with_logging(op: ServiceOperator) -> (r: ServiceOperator)
    ensures
        r.scheme_view() == op.scheme_view(),
        r.options_view() == op.options_view(),
        r.layers_view() == op.layers_view().push(Layer::Logging),
{
    ServiceOperator {
        operator: op.operator.layer(opendal::layers::LoggingLayer::default()),
        scheme: op.scheme,
        options: op.options,
        layers: Ghost(op.layers@.push(Layer::Logging)),
    }
}

impl Clone for ServiceOperator {
    /// Another handle on the same operator (`opendal::Operator::clone`, which
    /// shares the service and its layers), with the same record.
    #[verifier::external_body]
    fn clone(&self) -> (r: Self)
        ensures
            r.scheme_view() == self.scheme_view(),
            r.options_view() == self.options_view(),
            r.layers_view() == self.layers_view(),
    {
        ServiceOperator {
            operator: self.operator.clone(),
            scheme: self.scheme,
            options: self.options,
            layers: self.layers,
        }
    }
}

} // verus!

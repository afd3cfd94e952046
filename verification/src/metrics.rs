//! The metrics the server reports.
use vstd::prelude::*;
use crate::recorder::{register_counter, register_gauge, MetricKind, Receipt};

verus! {

/// Registers the server's metrics with the installed recorder: the gauge
/// `imglaze_active_sockets` ("Active Sockets") and then the counter `imglaze_images_changed`
/// ("Amount of images changed"), and no other. Returns the receipts of these registrations, in
/// order.
pub fn register_metrics() -> (registered: Vec<Receipt>)
    ensures
        registered@.len() == 2,
        registered@[0].def() == (MetricKind::Gauge, "imglaze_active_sockets"@, "Active Sockets"@),
        registered@[1].def() == (MetricKind::Counter, "imglaze_images_changed"@, "Amount of images changed"@),
{
    let gauge = register_gauge("imglaze_active_sockets", "Active Sockets");
    let counter = register_counter("imglaze_images_changed", "Amount of images changed");
    let mut registered: Vec<Receipt> = Vec::new();
    registered.push(gauge);
    registered.push(counter);
    registered
}

} // verus!

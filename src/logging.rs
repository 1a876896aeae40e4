//! An output that renders each value as a text line for the log, either at
//! once or held in its scope until the scope is flushed.
use vstd::prelude::*;
use vstd::string::StringSliceAdditionalSpecFns;
use crate::attributes::Attributes;
use crate::name::{views, Kind, Name};
use crate::text::{dotted, format_name, line_of, print_name_value_line};

verus! {

/// What a write hands out to be sent at once, as bytes.
pub open spec fn emitted(r: Option<Vec<u8>>) -> Option<Seq<u8>> {
    match r {
        Some(v) => Some(v@),
        None => None,
    }
}

/// What writing `value` through a metric with rendered name `template`
/// sends out at once: nothing when it buffers, its line otherwise.
pub open spec fn write_emits(buffered: bool, template: Seq<u8>, value: nat) -> Option<Seq<u8>> {
    if buffered {
        None
    } else {
        Some(line_of(template, value))
    }
}

/// The pending lines of a scope after such a write: the line is appended
/// when the metric buffers, and nothing changes otherwise.
pub open spec fn write_pending(
    buffered: bool,
    template: Seq<u8>,
    value: nat,
    pending: Seq<Seq<u8>>,
) -> Seq<Seq<u8>> {
    if buffered {
        pending.push(line_of(template, value))
    } else {
        pending
    }
}

/// Without buffering a write's line is handed out by the write itself and
/// nothing is left for a flush; with buffering the write hands out nothing,
/// and the next flush hands out the lines pending before it followed by
/// this line.
pub proof fn buffering_delays_output(
    buffered: bool,
    template: Seq<u8>,
    value: nat,
    pending: Seq<Seq<u8>>,
)
    ensures
        !buffered ==> write_emits(buffered, template, value) == Some(line_of(template, value))
            && write_pending(buffered, template, value, pending) == pending,
        buffered ==> write_emits(buffered, template, value) is None
            && write_pending(buffered, template, value, pending).last() == line_of(template, value)
            && write_pending(buffered, template, value, pending).drop_last() == pending,
{
    if buffered {
        assert(pending.push(line_of(template, value)).drop_last() =~= pending);
    }
}

/// Factory of log scopes; its attributes seed every scope it opens.
#[derive(Debug)]
pub struct LogOutput {
    pub attributes: Attributes,
}

/// A scope of log output: it builds metrics and, when buffering, holds the
/// lines they rendered until `flush`.
#[derive(Debug)]
pub struct Log {
    attributes: Attributes,
    entries: Vec<Vec<u8>>,
    observers: Vec<Metric>,
}

/// A gauge whose value is sampled from outside the library, either on its
/// own cadence or just before each flush of a scope it was registered with.
#[derive(Debug)]
pub struct Observer {
    metric: Metric,
}

/// The lines reporting `samples[i]` under `templates[i]`, for each `i`.
pub open spec fn observed_lines(templates: Seq<Seq<u8>>, samples: Seq<u64>) -> Seq<Seq<u8>> {
    Seq::new(templates.len(), |i: int| line_of(templates[i], samples[i] as nat))
}

/// A handle bound to one rendered name and kind. Whether it buffers was
/// fixed when it was built.
#[derive(Debug)]
pub struct Metric {
    template: Vec<u8>,
    kind: Kind,
    buffered: bool,
}

impl Metric {
    /// The rendered name that every line of this metric starts with.
    pub closed spec fn template(&self) -> Seq<u8> {
        self.template@
    }

    /// The kind this metric was built for.
    pub closed spec fn kind(&self) -> Kind {
        self.kind
    }

    /// Whether writes go to the scope's buffer rather than out at once.
    pub closed spec fn buffered(&self) -> bool {
        self.buffered
    }

    /// A handle with the same rendered name, kind and routing.
    pub fn copy(&self) -> (r: Metric)
        ensures
            r.template() == self.template(),
            r.kind() == self.kind(),
            r.buffered() == self.buffered(),
    {
        Metric { template: crate::name::copy_bytes(&self.template), kind: self.kind, buffered: self.buffered }
    }

    /// Whether writes go to the scope's buffer.
    pub fn is_buffered(&self) -> (r: bool)
        ensures
            r == self.buffered(),
    {
        self.buffered
    }

    /// Writes `value`. A buffered metric appends its line to the scope's
    /// pending entries and hands nothing out; an unbuffered one leaves the
    /// scope as it was and returns the line, for the caller to send out at
    /// once.
    pub fn write(&self, scope: &mut Log, value: u64) -> (r: Option<Vec<u8>>)
        ensures
            final(scope).prefix() == old(scope).prefix() && final(scope).buffered() == old(scope).buffered(),
            final(scope).observed() == old(scope).observed(),
            emitted(r) == write_emits(self.buffered(), self.template(), value as nat),
            final(scope).pending() == write_pending(
                self.buffered(),
                self.template(),
                value as nat,
                old(scope).pending(),
            ),
    {
        let line = print_name_value_line(&self.template, value);
        if self.buffered {
            scope.entries.push(line);
            proof {
                assert(views(scope.entries@) =~= views(old(scope).entries@).push(line@));
            }
            None
        } else {
            Some(line)
        }
    }

    /// Counts `value` occurrences.
    pub fn count(&self, scope: &mut Log, value: u64) -> (r: Option<Vec<u8>>)
        ensures
            final(scope).prefix() == old(scope).prefix() && final(scope).buffered() == old(scope).buffered(),
            final(scope).observed() == old(scope).observed(),
            emitted(r) == write_emits(self.buffered(), self.template(), value as nat),
            final(scope).pending() == write_pending(self.buffered(), self.template(), value as nat, old(scope).pending()),
    {
        self.write(scope, value)
    }

    /// Records one occurrence of an event: a mark counts as 1.
    pub fn mark(&self, scope: &mut Log) -> (r: Option<Vec<u8>>)
        ensures
            final(scope).prefix() == old(scope).prefix() && final(scope).buffered() == old(scope).buffered(),
            final(scope).observed() == old(scope).observed(),
            emitted(r) == write_emits(self.buffered(), self.template(), 1),
            final(scope).pending() == write_pending(self.buffered(), self.template(), 1, old(scope).pending()),
    {
        self.write(scope, 1)
    }
}

impl LogOutput {
    /// A scope with a copy of this output's attributes and nothing pending.
    pub fn open_scope(&self) -> (r: Log)
        ensures
            r.prefix() == self.attributes.prefix@,
            r.buffered() == self.attributes.buffered,
            r.pending() == Seq::<Seq<u8>>::empty(),
            r.observed() == Seq::<Seq<u8>>::empty(),
    {
        let r = Log { attributes: self.attributes.copy(), entries: Vec::new(), observers: Vec::new() };
        assert(r.pending() =~= Seq::<Seq<u8>>::empty());
        assert(r.observed() =~= Seq::<Seq<u8>>::empty());
        r
    }

    /// The attributes that seed opened scopes.
    pub fn get_attributes(&self) -> (r: &Attributes)
        ensures
            r == &self.attributes,
    {
        &self.attributes
    }

    /// This output with `segment` appended to its prefix.
    pub fn with_prefix(&self, segment: &str) -> (r: LogOutput)
        ensures
            r.attributes.prefix@ == self.attributes.prefix@.push(segment.spec_bytes()),
            r.attributes.buffered == self.attributes.buffered,
    {
        LogOutput { attributes: self.attributes.with_prefix(segment) }
    }

    /// This output with buffering set to `buffered`.
    pub fn with_buffering(&self, buffered: bool) -> (r: LogOutput)
        ensures
            r.attributes.prefix@ == self.attributes.prefix@,
            r.attributes.buffered == buffered,
    {
        LogOutput { attributes: self.attributes.with_buffering(buffered) }
    }
}

impl Log {
    /// The lines written through buffered metrics and not flushed yet,
    /// oldest first.
    pub closed spec fn pending(&self) -> Seq<Seq<u8>> {
        views(self.entries@)
    }

    /// The rendered names of the observers to report at each flush, in the
    /// order they were registered.
    pub closed spec fn observed(&self) -> Seq<Seq<u8>> {
        self.observers@.map_values(|m: Metric| m.template@)
    }

    /// The prefix of every name built in this scope.
    pub closed spec fn prefix(&self) -> Seq<Seq<u8>> {
        self.attributes.prefix@
    }

    /// Whether metrics built in this scope buffer their lines.
    pub closed spec fn buffered(&self) -> bool {
        self.attributes.buffered
    }

    /// An output writing to the log, with no prefix and no buffering.
    pub fn output() -> (r: LogOutput)
        ensures
            r.attributes.prefix@ == Seq::<Seq<u8>>::empty(),
            !r.attributes.buffered,
    {
        LogOutput { attributes: Attributes::new() }
    }

    /// The attributes of this scope.
    pub fn get_attributes(&self) -> (r: &Attributes)
        ensures
            r.prefix@ == self.prefix(),
            r.buffered == self.buffered(),
    {
        &self.attributes
    }

    /// This scope with `segment` appended to its prefix; what is pending
    /// stays pending.
    pub fn with_prefix(self, segment: &str) -> (r: Log)
        ensures
            r.prefix() == self.prefix().push(segment.spec_bytes()),
            r.buffered() == self.buffered(),
            r.pending() == self.pending(),
            r.observed() == self.observed(),
    {
        let attributes = self.attributes.with_prefix(segment);
        Log { attributes, entries: self.entries, observers: self.observers }
    }

    /// Builds the metric for `name` and `kind`: its rendered name is the
    /// scope's prefix followed by `name`, and it buffers if the scope does.
    pub fn new_metric(&self, name: &Name, kind: Kind) -> (r: Metric)
        ensures
            r.template() == dotted(self.prefix() + name@),
            r.kind() == kind,
            r.buffered() == self.buffered(),
    {
        let qualified = self.attributes.qualified_name(name);
        let template = format_name(&qualified, kind);
        Metric { template, kind, buffered: self.attributes.is_buffering() }
    }

    /// The counter named `name`.
    pub fn counter(&self, name: &str) -> (r: Metric)
        ensures
            r.template() == dotted(self.prefix().push(name.spec_bytes())),
            r.kind() == Kind::Counter,
            r.buffered() == self.buffered(),
    {
        let n = Name::from_str(name);
        assert(self.attributes.prefix@ + n@ =~= self.attributes.prefix@.push(name.spec_bytes()));
        self.new_metric(&n, Kind::Counter)
    }

    /// The marker named `name`.
    pub fn marker(&self, name: &str) -> (r: Metric)
        ensures
            r.template() == dotted(self.prefix().push(name.spec_bytes())),
            r.kind() == Kind::Marker,
            r.buffered() == self.buffered(),
    {
        let n = Name::from_str(name);
        assert(self.attributes.prefix@ + n@ =~= self.attributes.prefix@.push(name.spec_bytes()));
        self.new_metric(&n, Kind::Marker)
    }

    /// Hands out every pending line, oldest first, as one batch, and leaves
    /// nothing pending.
    pub fn flush(&mut self) -> (r: Vec<Vec<u8>>)
        ensures
            views(r@) == old(self).pending(),
            final(self).pending() == Seq::<Seq<u8>>::empty(),
            final(self).prefix() == old(self).prefix() && final(self).buffered() == old(self).buffered(),
            final(self).observed() == old(self).observed(),
    {
        let mut drained: Vec<Vec<u8>> = Vec::new();
        std::mem::swap(&mut self.entries, &mut drained);
        assert(views(self.entries@) =~= Seq::<Seq<u8>>::empty());
        drained
    }
}

impl Log {
    /// An observer reporting into the gauge named `name` in this scope.
    pub fn observe(&self, name: &str) -> (r: Observer)
        ensures
            r.template() == dotted(self.prefix().push(name.spec_bytes())),
    {
        let n = Name::from_str(name);
        assert(self.prefix() + n@ =~= self.prefix().push(name.spec_bytes()));
        Observer { metric: self.new_metric(&n, Kind::Gauge) }
    }

    /// Registers `observer` to be reported just before each flush made
    /// with `flush_observed`.
    pub fn on_flush(&mut self, observer: &Observer)
        ensures
            final(self).observed() == old(self).observed().push(observer.template()),
            final(self).pending() == old(self).pending(),
            final(self).prefix() == old(self).prefix() && final(self).buffered() == old(self).buffered(),
    {
        self.observers.push(observer.metric.copy());
        assert(self.observed() =~= old(self).observed().push(observer.template()));
    }

    /// How many observers are registered.
    pub fn observer_count(&self) -> (r: usize)
        ensures
            r == self.observed().len(),
    {
        self.observers.len()
    }

    /// Reports `samples[i]` for the `i`-th registered observer, then hands
    /// out the batch: the lines pending before, followed by the reported
    /// lines in the order the observers were registered. Nothing is left
    /// pending.
    pub fn flush_observed(&mut self, samples: &Vec<u64>) -> (r: Vec<Vec<u8>>)
        requires
            samples@.len() == old(self).observed().len(),
        ensures
            views(r@) == old(self).pending() + observed_lines(old(self).observed(), samples@),
            final(self).pending() == Seq::<Seq<u8>>::empty(),
            final(self).observed() == old(self).observed(),
            final(self).prefix() == old(self).prefix() && final(self).buffered() == old(self).buffered(),
    {
        let ghost obs = self.observed();
        let ghost p0 = self.pending();
        let mut i: usize = 0;
        while i < self.observers.len()
            invariant
                i <= self.observers@.len(),
                samples@.len() == self.observers@.len(),
                obs == self.observed(),
                self.prefix() == old(self).prefix() && self.buffered() == old(self).buffered(),
                self.pending() == p0 + observed_lines(obs.subrange(0, i as int), samples@.subrange(0, i as int)),
            decreases self.observers@.len() - i,
        {
            let line = print_name_value_line(&self.observers[i].template, samples[i]);
            let ghost before = self.entries@;
            self.entries.push(line);
            proof {
                assert(obs[i as int] == self.observers@[i as int].template@);
                assert(views(self.entries@) =~= views(before).push(line@));
                assert(observed_lines(obs.subrange(0, i + 1), samples@.subrange(0, i + 1)) =~=
                    observed_lines(obs.subrange(0, i as int), samples@.subrange(0, i as int)).push(line@));
                assert(self.pending() =~= p0 + observed_lines(obs.subrange(0, i + 1), samples@.subrange(0, i + 1)));
            }
            i = i + 1;
        }
        proof {
            assert(obs.subrange(0, i as int) =~= obs);
            assert(samples@.subrange(0, i as int) =~= samples@);
        }
        self.flush()
    }
}

impl Log {
    /// This scope with buffering set to `buffered` for the metrics built
    /// from now on; metrics built before keep their routing.
    pub fn with_buffering(self, buffered: bool) -> (r: Log)
        ensures
            r.prefix() == self.prefix(),
            r.buffered() == buffered,
            r.pending() == self.pending(),
            r.observed() == self.observed(),
    {
        let attributes = self.attributes.with_buffering(buffered);
        Log { attributes, entries: self.entries, observers: self.observers }
    }

    /// Ends the scope: hands out what is still pending, as a last flush.
    pub fn close(self) -> (r: Vec<Vec<u8>>)
        ensures
            views(r@) == self.pending(),
    {
        let mut scope = self;
        scope.flush()
    }
}

impl Observer {
    /// The rendered name of the observed gauge.
    pub closed spec fn template(&self) -> Seq<u8> {
        self.metric.template()
    }

    /// Whether reports go to the scope's buffer.
    pub closed spec fn buffered(&self) -> bool {
        self.metric.buffered()
    }

    /// Writes `sample`, the value just taken, to the observed gauge.
    pub fn report(&self, scope: &mut Log, sample: u64) -> (r: Option<Vec<u8>>)
        ensures
            final(scope).prefix() == old(scope).prefix() && final(scope).buffered() == old(scope).buffered(),
            final(scope).observed() == old(scope).observed(),
            emitted(r) == write_emits(self.buffered(), self.template(), sample as nat),
            final(scope).pending() == write_pending(self.buffered(), self.template(), sample as nat, old(scope).pending()),
    {
        self.metric.write(scope, sample)
    }
}

} // verus!

use vstd::prelude::*;

verus! {

/// The output format of the log lines on STDOUT.
#[derive(Debug, Clone, Copy, PartialEq, Eq, Structural)]
pub enum LogFormat {
    Text,
    Json,
}

/// Which events the installed subscriber lets through.
#[derive(Debug, Clone, Copy, PartialEq, Eq, Structural)]
pub enum EventFilter {
    /// Everything up to the `trace` level.
    UpToTrace,
    /// What the environment's filter says, with `tide=info` added.
    FromEnvironment,
}

/// How the global subscriber is to be assembled.
#[derive(Debug, Clone, Copy, PartialEq, Eq, Structural)]
pub struct SubscriberSetup {
    pub json: bool,
    pub filter: EventFilter,
    /// Whether spans go to Jaeger as well.
    pub jaeger: bool,
}

/// An installer for a global logger.
#[derive(Debug, Clone, Copy)]
pub struct Logger {
    service_name: &'static str,
    log_format: LogFormat,
    enable_telemetry: bool,
}

impl Logger {
    pub closed spec fn spec_service_name(&self) -> Seq<char> {
        self.service_name@
    }

    pub closed spec fn spec_log_format(&self) -> LogFormat {
        self.log_format
    }

    pub closed spec fn spec_telemetry(&self) -> bool {
        self.enable_telemetry
    }

    /// Initialize a new global logger installer: Json output, no telemetry.
    pub fn new(service_name: &'static str) -> (r: Logger)
        ensures
            r.spec_service_name() == service_name@,
            r.spec_log_format() == LogFormat::Json,
            !r.spec_telemetry(),
    {
        Logger { service_name, log_format: LogFormat::Json, enable_telemetry: false }
    }

    /// Sets the STDOUT log output format. Default: Json.
    pub fn log_format(&mut self, log_format: LogFormat)
        ensures
            final(self).spec_log_format() == log_format,
            final(self).spec_service_name() == old(self).spec_service_name(),
            final(self).spec_telemetry() == old(self).spec_telemetry(),
    {
        self.log_format = log_format;
    }

    /// Enables Jaeger telemetry.
    pub fn enable_telemetry(&mut self, enable_telemetry: bool)
        ensures
            final(self).spec_telemetry() == enable_telemetry,
            final(self).spec_service_name() == old(self).spec_service_name(),
            final(self).spec_log_format() == old(self).spec_log_format(),
    {
        self.enable_telemetry = enable_telemetry;
    }

    pub fn service_name(&self) -> (r: &'static str)
        ensures
            r@ == self.spec_service_name(),
    {
        self.service_name
    }

    pub fn format(&self) -> (r: LogFormat)
        ensures
            r == self.spec_log_format(),
    {
        self.log_format
    }

    pub fn telemetry_enabled(&self) -> (r: bool)
        ensures
            r == self.spec_telemetry(),
    {
        self.enable_telemetry
    }

    /// How `install` assembles the subscriber: text lines take every event;
    /// Json lines take every event with telemetry, and follow the environment's
    /// filter without it; spans go to Jaeger exactly when telemetry is on.
    pub fn subscriber_setup(&self) -> (r: SubscriberSetup)
        ensures
            r.json == (self.spec_log_format() == LogFormat::Json),
            r.filter == (if self.spec_log_format() == LogFormat::Json && !self.spec_telemetry() {
                EventFilter::FromEnvironment
            } else {
                EventFilter::UpToTrace
            }),
            r.jaeger == self.spec_telemetry(),
    {
        match self.log_format {
            LogFormat::Text => SubscriberSetup {
                json: false,
                filter: EventFilter::UpToTrace,
                jaeger: self.enable_telemetry,
            },
            LogFormat::Json => SubscriberSetup {
                json: true,
                filter: if self.enable_telemetry { EventFilter::UpToTrace } else { EventFilter::FromEnvironment },
                jaeger: self.enable_telemetry,
            },
        }
    }
}

} // verus!

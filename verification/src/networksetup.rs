//! macOS: the `networksetup` argument lists and the operations built from them.
use crate::macos::{
    auto_proxy_from, auto_proxy_from_output, auto_proxy_report, bypass_from, bypass_from_output, bypass_report,
    first_service_from, first_service_from_output, interface_from_route_output, join, merge_proxies,
    merged_proxy, plain_host, plain_item, plain_url, proxy_from, proxy_from_output, proxy_report, route_interface,
    service_for, service_for_device, services_from, services_from_output,
};
use crate::session::{
    check_networksetup, decode_strict, networksetup_result, Invocation, InvocationView, Outcome,
    OutcomeView, Step, StepView,
};
use crate::text::{chars_of, dec_repr, lines, push_dec, split_exec, split_on};
use crate::{Autoproxy, AutoproxyView, Error, ErrorView, Result, Sysproxy, SysproxyView};
use vstd::prelude::*;
use vstd::string::StringExecFns;
use vstd::utf8::{decode_utf8, valid_utf8};

verus! {

/// The kinds of proxy that `networksetup` configures separately.
#[derive(Debug, Clone, Copy, PartialEq, Eq)]
pub enum ProxyType {
    Http,
    Https,
    Socks,
}

impl ProxyType {
    /// The word that names this kind in `networksetup` options.
    pub open spec fn target_text(self) -> Seq<char> {
        match self {
            ProxyType::Http => "webproxy"@,
            ProxyType::Https => "securewebproxy"@,
            ProxyType::Socks => "socksfirewallproxy"@,
        }
    }

    /// The word that names this kind in `networksetup` options.
    pub fn target(self) -> (r: &'static str)
        ensures
            r@ == self.target_text(),
    {
        match self {
            ProxyType::Http => "webproxy",
            ProxyType::Https => "securewebproxy",
            ProxyType::Socks => "socksfirewallproxy",
        }
    }
}

// ---------------------------------------------------------------------------
// Argument lists
// ---------------------------------------------------------------------------

/// `-get<kind> <service>`
pub open spec fn get_proxy_args(kind: ProxyType, service: Seq<char>) -> Seq<Seq<char>> {
    seq!["-get"@ + kind.target_text(), service]
}

/// `-set<kind> <service> <host> <port>`
pub open spec fn set_proxy_args(kind: ProxyType, service: Seq<char>, proxy: SysproxyView) -> Seq<
    Seq<char>,
> {
    seq!["-set"@ + kind.target_text(), service, proxy.host, dec_repr(proxy.port as nat)]
}

/// The word that switches a setting on or off.
pub open spec fn on_off(enable: bool) -> Seq<char> {
    if enable {
        "on"@
    } else {
        "off"@
    }
}

/// `-set<kind>state <service> on|off`
pub open spec fn set_state_args(kind: ProxyType, service: Seq<char>, enable: bool) -> Seq<Seq<char>> {
    seq!["-set"@ + kind.target_text() + "state"@, service, on_off(enable)]
}

/// `-getproxybypassdomains <service>`
pub open spec fn get_bypass_args(service: Seq<char>) -> Seq<Seq<char>> {
    seq!["-getproxybypassdomains"@, service]
}

/// The non-empty items of a comma-separated list, in order.
pub open spec fn nonempty_items(items: Seq<Seq<char>>) -> Seq<Seq<char>>
    decreases items.len(),
{
    if items.len() == 0 {
        Seq::empty()
    } else {
        let r = nonempty_items(items.drop_last());
        if items.last().len() > 0 {
            r.push(items.last())
        } else {
            r
        }
    }
}

/// `-setproxybypassdomains <service> <domain>…` with each non-empty item of the
/// comma-separated bypass list as one argument.
pub open spec fn set_bypass_args(service: Seq<char>, bypass: Seq<char>) -> Seq<Seq<char>> {
    seq!["-setproxybypassdomains"@, service] + nonempty_items(split_on(bypass, ','))
}

/// `-getautoproxyurl <service>`
pub open spec fn get_auto_proxy_args(service: Seq<char>) -> Seq<Seq<char>> {
    seq!["-getautoproxyurl"@, service]
}

/// `-setautoproxyurl <service> <url>`, where an empty URL is passed as `""`.
pub open spec fn set_auto_proxy_url_args(service: Seq<char>, url: Seq<char>) -> Seq<Seq<char>> {
    seq![
        "-setautoproxyurl"@,
        service,
        if url.len() == 0 {
            "\"\""@
        } else {
            url
        },
    ]
}

/// `-setautoproxystate <service> on|off`
pub open spec fn set_auto_proxy_state_args(service: Seq<char>, enable: bool) -> Seq<Seq<char>> {
    seq!["-setautoproxystate"@, service, on_off(enable)]
}

/// `-listnetworkserviceorder`
pub open spec fn service_order_args() -> Seq<Seq<char>> {
    seq!["-listnetworkserviceorder"@]
}

/// `-listallnetworkservices`
pub open spec fn all_services_args() -> Seq<Seq<char>> {
    seq!["-listallnetworkservices"@]
}

fn owned(s: &str) -> (r: String)
    ensures
        r@ == s@,
{
    s.to_owned()
}

fn concat2(a: &str, b: &str) -> (r: String)
    ensures
        r@ == a@ + b@,
{
    let mut r = owned(a);
    r.append(b);
    r
}

fn get_proxy_args_exec(kind: ProxyType, service: &str) -> (r: Vec<String>)
    ensures
        r.deep_view() == get_proxy_args(kind, service@),
{
    let mut r: Vec<String> = Vec::new();
    r.push(concat2("-get", kind.target()));
    r.push(owned(service));
    assert(r.deep_view() =~= get_proxy_args(kind, service@));
    r
}

fn set_proxy_args_exec(kind: ProxyType, service: &str, proxy: &Sysproxy) -> (r: Vec<String>)
    ensures
        r.deep_view() == set_proxy_args(kind, service@, proxy@),
{
    let mut port = String::new();
    push_dec(&mut port, proxy.port as u32);
    assert(port@ =~= dec_repr(proxy.port as nat));
    let mut r: Vec<String> = Vec::new();
    r.push(concat2("-set", kind.target()));
    r.push(owned(service));
    r.push(proxy.host.clone());
    r.push(port);
    assert(r.deep_view() =~= set_proxy_args(kind, service@, proxy@));
    r
}

fn on_off_exec(enable: bool) -> (r: &'static str)
    ensures
        r@ == on_off(enable),
{
    if enable {
        "on"
    } else {
        "off"
    }
}

fn set_state_args_exec(kind: ProxyType, service: &str, enable: bool) -> (r: Vec<String>)
    ensures
        r.deep_view() == set_state_args(kind, service@, enable),
{
    let mut opt = concat2("-set", kind.target());
    opt.append("state");
    let mut r: Vec<String> = Vec::new();
    r.push(opt);
    r.push(owned(service));
    r.push(owned(on_off_exec(enable)));
    assert(r.deep_view() =~= set_state_args(kind, service@, enable));
    r
}

fn get_bypass_args_exec(service: &str) -> (r: Vec<String>)
    ensures
        r.deep_view() == get_bypass_args(service@),
{
    let mut r: Vec<String> = Vec::new();
    r.push(owned("-getproxybypassdomains"));
    r.push(owned(service));
    assert(r.deep_view() =~= get_bypass_args(service@));
    r
}

fn set_bypass_args_exec(service: &str, bypass: &str) -> (r: Vec<String>)
    ensures
        r.deep_view() == set_bypass_args(service@, bypass@),
{
    let mut r: Vec<String> = Vec::new();
    r.push(owned("-setproxybypassdomains"));
    r.push(owned(service));
    let pieces = split_exec(&chars_of(bypass), ',');
    let ghost sp = split_on(bypass@, ',');
    let ghost head = r.deep_view();
    let mut i: usize = 0;
    while i < pieces.len()
        invariant
            pieces@.len() == sp.len(),
            forall|k: int| 0 <= k < pieces@.len() ==> #[trigger] pieces@[k]@ == sp[k],
            i <= pieces@.len(),
            head == seq!["-setproxybypassdomains"@, service@],
            r.deep_view() == head + nonempty_items(sp.take(i as int)),
        decreases pieces@.len() - i,
    {
        assert(sp.take(i + 1).drop_last() =~= sp.take(i as int));
        if pieces[i].len() > 0 {
            let ghost before = r.deep_view();
            r.push(crate::text::string_of(&pieces[i]));
            assert(r.deep_view() =~= before.push(sp[i as int]));
        }
        i = i + 1;
    }
    assert(sp.take(pieces@.len() as int) =~= sp);
    r
}

fn get_auto_proxy_args_exec(service: &str) -> (r: Vec<String>)
    ensures
        r.deep_view() == get_auto_proxy_args(service@),
{
    let mut r: Vec<String> = Vec::new();
    r.push(owned("-getautoproxyurl"));
    r.push(owned(service));
    assert(r.deep_view() =~= get_auto_proxy_args(service@));
    r
}

fn set_auto_proxy_url_args_exec(service: &str, url: &str) -> (r: Vec<String>)
    ensures
        r.deep_view() == set_auto_proxy_url_args(service@, url@),
{
    let mut r: Vec<String> = Vec::new();
    r.push(owned("-setautoproxyurl"));
    r.push(owned(service));
    if url.is_empty() {
        r.push(owned("\"\""));
    } else {
        r.push(owned(url));
    }
    assert(r.deep_view() =~= set_auto_proxy_url_args(service@, url@));
    r
}

fn set_auto_proxy_state_args_exec(service: &str, enable: bool) -> (r: Vec<String>)
    ensures
        r.deep_view() == set_auto_proxy_state_args(service@, enable),
{
    let mut r: Vec<String> = Vec::new();
    r.push(owned("-setautoproxystate"));
    r.push(owned(service));
    r.push(owned(on_off_exec(enable)));
    assert(r.deep_view() =~= set_auto_proxy_state_args(service@, enable));
    r
}

fn service_order_args_exec() -> (r: Vec<String>)
    ensures
        r.deep_view() == service_order_args(),
{
    let mut r: Vec<String> = Vec::new();
    r.push(owned("-listnetworkserviceorder"));
    assert(r.deep_view() =~= service_order_args());
    r
}

fn all_services_args_exec() -> (r: Vec<String>)
    ensures
        r.deep_view() == all_services_args(),
{
    let mut r: Vec<String> = Vec::new();
    r.push(owned("-listallnetworkservices"));
    assert(r.deep_view() =~= all_services_args());
    r
}

// ---------------------------------------------------------------------------
// Finding the network service
// ---------------------------------------------------------------------------

/// Finding the network service to configure: the service of the default-route
/// interface, or, when `fallback` is set and that fails, the first listed service.
#[derive(Debug, Clone, PartialEq, Eq)]
pub enum ServiceLookup {
    /// Waiting for `route -n get default`.
    Route { fallback: bool },
    /// Waiting for the service order, with the default-route interface found.
    Order { fallback: bool, iface: String },
    /// Waiting for the list of all services.
    Services,
}

pub enum ServiceLookupView {
    Route { fallback: bool },
    Order { fallback: bool, iface: Seq<char> },
    Services,
}

impl View for ServiceLookup {
    type V = ServiceLookupView;

    open spec fn view(&self) -> ServiceLookupView {
        match self {
            ServiceLookup::Route { fallback } => ServiceLookupView::Route { fallback: *fallback },
            ServiceLookup::Order { fallback, iface } => ServiceLookupView::Order {
                fallback: *fallback,
                iface: iface@,
            },
            ServiceLookup::Services => ServiceLookupView::Services,
        }
    }
}

/// The default-route interface from a `route -n get default` run: the output must
/// be valid UTF-8 and name an interface.
pub open spec fn route_result(o: OutcomeView) -> std::result::Result<Seq<char>, ErrorView> {
    match o {
        OutcomeView::SpawnFailed(m) => Err(ErrorView::Io(m)),
        OutcomeView::Exited { stdout, .. } => {
            if !valid_utf8(stdout) {
                Err(ErrorView::ParseStr("route"@))
            } else {
                match route_interface(lines(decode_utf8(stdout))) {
                    Some(i) => Ok(i),
                    None => Err(ErrorView::NetworkInterface),
                }
            }
        },
    }
}

/// Where a failed search for the active service leads: to the list of all
/// services when falling back, else to the failure.
pub open spec fn lookup_failed(fallback: bool, e: ErrorView) -> StepView<ServiceLookupView, Seq<char>> {
    if fallback {
        StepView::Run(ServiceLookupView::Services, InvocationView::Networksetup(all_services_args()))
    } else {
        StepView::Done(Err(e))
    }
}

/// The next step of a service lookup.
pub open spec fn lookup_next(s: ServiceLookupView, o: OutcomeView) -> StepView<ServiceLookupView, Seq<char>> {
    match s {
        ServiceLookupView::Route { fallback } => match route_result(o) {
            Ok(iface) => StepView::Run(
                ServiceLookupView::Order { fallback, iface },
                InvocationView::Networksetup(service_order_args()),
            ),
            Err(e) => lookup_failed(fallback, e),
        },
        ServiceLookupView::Order { fallback, iface } => match networksetup_result(
            service_order_args(),
            o,
        ) {
            Err(e) => lookup_failed(fallback, e),
            Ok(order) => match service_for(order, iface) {
                Some(service) => StepView::Done(Ok(service)),
                None => lookup_failed(
                    fallback,
                    ErrorView::Command("no network service maps to interface "@ + iface),
                ),
            },
        },
        ServiceLookupView::Services => match networksetup_result(all_services_args(), o) {
            Err(e) => StepView::Done(Err(e)),
            Ok(out) => match first_service_from(out) {
                Some(service) => StepView::Done(Ok(service)),
                None => StepView::Done(Err(ErrorView::NetworkInterface)),
            },
        },
    }
}

fn route_result_exec(o: &Outcome) -> (r: Result<String>)
    ensures
        crate::result_view(r) == route_result(o@),
{
    match o {
        Outcome::SpawnFailed(m) => Err(Error::Io(m.clone())),
        Outcome::Exited { stdout, .. } => match decode_strict(stdout.as_slice()) {
            None => Err(Error::ParseStr(owned("route"))),
            Some(text) => match interface_from_route_output(text.as_str()) {
                Some(i) => Ok(i),
                None => Err(Error::NetworkInterface),
            },
        },
    }
}

fn lookup_failed_exec(fallback: bool, e: Error) -> (r: Step<ServiceLookup, String>)
    ensures
        r@ == lookup_failed(fallback, e@),
{
    if fallback {
        Step::Run(ServiceLookup::Services, Invocation::Networksetup(all_services_args_exec()))
    } else {
        Step::Done(Err(e))
    }
}

impl ServiceLookup {
    /// Continues the lookup with the outcome of the requested run.
    pub fn resume(self, o: &Outcome) -> (r: Step<ServiceLookup, String>)
        ensures
            r@ == lookup_next(self@, o@),
    {
        match self {
            ServiceLookup::Route { fallback } => match route_result_exec(o) {
                Ok(iface) => Step::Run(
                    ServiceLookup::Order { fallback, iface },
                    Invocation::Networksetup(service_order_args_exec()),
                ),
                Err(e) => lookup_failed_exec(fallback, e),
            },
            ServiceLookup::Order { fallback, iface } => {
                let args = service_order_args_exec();
                match check_networksetup(&args, o) {
                    Err(e) => lookup_failed_exec(fallback, e),
                    Ok(order) => match service_for_device(order.as_str(), iface.as_str()) {
                        Some(service) => Step::Done(Ok(service)),
                        None => {
                            let msg = concat2("no network service maps to interface ", iface.as_str());
                            lookup_failed_exec(fallback, Error::Command(msg))
                        },
                    },
                }
            },
            ServiceLookup::Services => {
                let args = all_services_args_exec();
                match check_networksetup(&args, o) {
                    Err(e) => Step::Done(Err(e)),
                    Ok(out) => match first_service_from_output(out.as_str()) {
                        Some(service) => Step::Done(Ok(service)),
                        None => Step::Done(Err(Error::NetworkInterface)),
                    },
                }
            },
        }
    }
}

/// Resolves the active default-route interface to its `networksetup` service
/// name (e.g. `Wi-Fi`, or whatever the user renamed it to): `route -n get default`
/// gives the device, and `-listnetworkserviceorder` maps it to its service.
pub fn active_network_service() -> (r: Step<ServiceLookup, String>)
    ensures
        r@ == StepView::<ServiceLookupView, Seq<char>>::Run(
            (ServiceLookupView::Route { fallback: false }),
            InvocationView::DefaultRoute,
        ),
{
    Step::Run(ServiceLookup::Route { fallback: false }, Invocation::DefaultRoute)
}

/// The active service, falling back to the first listed service when the
/// default route cannot be resolved (e.g. offline).
pub fn resolve_service() -> (r: ServiceLookup)
    ensures
        r@ == (ServiceLookupView::Route { fallback: true }),
{
    ServiceLookup::Route { fallback: true }
}

// ---------------------------------------------------------------------------
// Running a list of commands
// ---------------------------------------------------------------------------

/// A list of `networksetup` runs made in order, stopping at the first failure,
/// with the outputs of those done so far.
#[derive(Debug)]
pub struct Batch {
    commands: Vec<Vec<String>>,
    outputs: Vec<String>,
}

pub struct BatchView {
    pub commands: Seq<Seq<Seq<char>>>,
    pub outputs: Seq<Seq<char>>,
}

impl View for Batch {
    type V = BatchView;

    closed spec fn view(&self) -> BatchView {
        BatchView { commands: self.commands.deep_view(), outputs: self.outputs.deep_view() }
    }
}

pub enum BatchStepView {
    Next(BatchView, Seq<Seq<char>>),
    Failed(ErrorView),
    Finished(Seq<Seq<char>>),
}

/// The first step of a batch.
pub open spec fn batch_start(commands: Seq<Seq<Seq<char>>>) -> BatchStepView {
    if commands.len() == 0 {
        BatchStepView::Finished(Seq::empty())
    } else {
        BatchStepView::Next(BatchView { commands, outputs: Seq::empty() }, commands[0])
    }
}

/// The next step of a batch: the run's output is recorded and the next command
/// requested; the first failure ends the batch.
pub open spec fn batch_next(b: BatchView, o: OutcomeView) -> BatchStepView {
    match networksetup_result(b.commands[b.outputs.len() as int], o) {
        Err(e) => BatchStepView::Failed(e),
        Ok(out) => {
            let outs = b.outputs.push(out);
            if outs.len() >= b.commands.len() {
                BatchStepView::Finished(outs)
            } else {
                BatchStepView::Next(
                    BatchView { commands: b.commands, outputs: outs },
                    b.commands[outs.len() as int],
                )
            }
        },
    }
}

enum BatchStep {
    Next(Batch, Vec<String>),
    Failed(Error),
    Finished(Vec<String>),
}

impl View for BatchStep {
    type V = BatchStepView;

    closed spec fn view(&self) -> BatchStepView {
        match self {
            BatchStep::Next(b, args) => BatchStepView::Next(b@, args.deep_view()),
            BatchStep::Failed(e) => BatchStepView::Failed(e@),
            BatchStep::Finished(outs) => BatchStepView::Finished(outs.deep_view()),
        }
    }
}

impl Batch {
    #[verifier::type_invariant]
    spec fn wf(self) -> bool {
        self.outputs@.len() < self.commands@.len()
    }

    pub closed spec fn len(self) -> nat {
        self.commands@.len()
    }

    fn start(commands: Vec<Vec<String>>) -> (r: BatchStep)
        ensures
            r@ == batch_start(commands.deep_view()),
            r matches BatchStep::Next(b, _) ==> b.len() == commands@.len(),
            r matches BatchStep::Finished(outs) ==> outs@.len() == commands@.len(),
    {
        if commands.len() == 0 {
            let empty: Vec<String> = Vec::new();
            assert(empty.deep_view() =~= Seq::<Seq<char>>::empty());
            return BatchStep::Finished(empty);
        }
        let first = commands[0].clone();
        let b = Batch { commands, outputs: Vec::new() };
        assert(b@.outputs =~= Seq::<Seq<char>>::empty());
        BatchStep::Next(b, first)
    }

    fn resume(self, o: &Outcome) -> (r: BatchStep)
        ensures
            r@ == batch_next(self@, o@),
            r matches BatchStep::Next(b, _) ==> b.len() == self.len(),
            r matches BatchStep::Finished(outs) ==> outs@.len() == self.len(),
    {
        proof {
            use_type_invariant(&self);
        }
        let n = self.outputs.len();
        match check_networksetup(&self.commands[n], o) {
            Err(e) => BatchStep::Failed(e),
            Ok(out) => {
                let Batch { commands, mut outputs } = self;
                let ghost before = outputs.deep_view();
                outputs.push(out);
                assert(outputs.deep_view() =~= before.push(out@));
                if outputs.len() >= commands.len() {
                    BatchStep::Finished(outputs)
                } else {
                    let next = commands[outputs.len()].clone();
                    BatchStep::Next(Batch { commands, outputs }, next)
                }
            },
        }
    }
}

// ---------------------------------------------------------------------------
// Operations on the active service
// ---------------------------------------------------------------------------

/// The stage of an operation on the active service: finding it, then running
/// the operation's commands on it.
#[derive(Debug)]
pub enum Stage {
    Lookup(ServiceLookup),
    Running(Batch),
}

pub enum StageView {
    Lookup(ServiceLookupView),
    Running(BatchView),
}

impl View for Stage {
    type V = StageView;

    open spec fn view(&self) -> StageView {
        match self {
            Stage::Lookup(l) => StageView::Lookup(l@),
            Stage::Running(b) => StageView::Running(b@),
        }
    }
}

/// The next step of an operation on the active service that runs `commands(service)`
/// once the service is known and finishes with `finish(outputs)`.
pub open spec fn stage_next<TV>(
    s: StageView,
    o: OutcomeView,
    commands: spec_fn(Seq<char>) -> Seq<Seq<Seq<char>>>,
    finish: spec_fn(Seq<Seq<char>>) -> TV,
) -> StepView<StageView, TV> {
    match s {
        StageView::Lookup(l) => match lookup_next(l, o) {
            StepView::Run(l2, i) => StepView::Run(StageView::Lookup(l2), i),
            StepView::Done(Err(e)) => StepView::Done(Err(e)),
            StepView::Done(Ok(service)) => from_batch(batch_start(commands(service)), finish),
        },
        StageView::Running(b) => from_batch(batch_next(b, o), finish),
    }
}

/// A batch step as an operation step.
pub open spec fn from_batch<TV>(s: BatchStepView, finish: spec_fn(Seq<Seq<char>>) -> TV) -> StepView<
    StageView,
    TV,
> {
    match s {
        BatchStepView::Next(b, args) => StepView::Run(
            StageView::Running(b),
            InvocationView::Networksetup(args),
        ),
        BatchStepView::Failed(e) => StepView::Done(Err(e)),
        BatchStepView::Finished(outs) => StepView::Done(Ok(finish(outs))),
    }
}

enum StageStep {
    Next(Stage, Invocation),
    Failed(Error),
    Found(String),
    Finished(Vec<String>),
}

fn advance(stage: Stage, o: &Outcome) -> (r: StageStep)
    ensures
        match stage@ {
            StageView::Lookup(l) => match lookup_next(l, o@) {
                StepView::Run(l2, i) => r matches StageStep::Next(s2, i2) && s2@ == StageView::Lookup(l2) && i2@ == i,
                StepView::Done(Err(e)) => r matches StageStep::Failed(e2) && e2@ == e,
                StepView::Done(Ok(service)) => r matches StageStep::Found(s2) && s2@ == service,
            },
            StageView::Running(b) => match batch_next(b, o@) {
                BatchStepView::Next(b2, args) => r matches StageStep::Next(s2, i2) && s2@ == StageView::Running(b2)
                    && i2@ == InvocationView::Networksetup(args),
                BatchStepView::Failed(e) => r matches StageStep::Failed(e2) && e2@ == e,
                BatchStepView::Finished(outs) => r matches StageStep::Finished(v) && v.deep_view() == outs,
            },
        },
        r matches StageStep::Next(Stage::Running(b2), _) ==> stage matches Stage::Running(b) && b2.len() == b.len(),
        r matches StageStep::Finished(v) ==> stage matches Stage::Running(b) && v@.len() == b.len(),
{
    match stage {
        Stage::Lookup(l) => match l.resume(o) {
            Step::Run(l2, i) => StageStep::Next(Stage::Lookup(l2), i),
            Step::Done(Err(e)) => StageStep::Failed(e),
            Step::Done(Ok(service)) => StageStep::Found(service),
        },
        Stage::Running(b) => match b.resume(o) {
            BatchStep::Next(b2, args) => StageStep::Next(Stage::Running(b2), Invocation::Networksetup(args)),
            BatchStep::Failed(e) => StageStep::Failed(e),
            BatchStep::Finished(outs) => StageStep::Finished(outs),
        },
    }
}

fn begin(commands: Vec<Vec<String>>) -> (r: StageStep)
    ensures
        match batch_start(commands.deep_view()) {
            BatchStepView::Next(b, args) => r matches StageStep::Next(s2, i2) && s2@ == StageView::Running(b)
                && i2@ == InvocationView::Networksetup(args),
            BatchStepView::Failed(e) => r matches StageStep::Failed(e2) && e2@ == e,
            BatchStepView::Finished(outs) => r matches StageStep::Finished(v) && v.deep_view() == outs,
        },
        r matches StageStep::Next(s2, _) ==> s2 matches Stage::Running(b) && b.len() == commands@.len(),
        r matches StageStep::Finished(v) ==> v@.len() == commands@.len(),
        !(r is Found),
{
    let n = commands.len();
    match Batch::start(commands) {
        BatchStep::Next(b, args) => StageStep::Next(Stage::Running(b), Invocation::Networksetup(args)),
        BatchStep::Failed(e) => StageStep::Failed(e),
        BatchStep::Finished(outs) => StageStep::Finished(outs),
    }
}

/// The reads that report the system proxy of `service`: the SOCKS, HTTP and HTTPS
/// proxies and the bypass list.
pub open spec fn system_proxy_reads(service: Seq<char>) -> Seq<Seq<Seq<char>>> {
    seq![
        get_proxy_args(ProxyType::Socks, service),
        get_proxy_args(ProxyType::Http, service),
        get_proxy_args(ProxyType::Https, service),
        get_bypass_args(service),
    ]
}

/// The system proxy that the outputs of `system_proxy_reads` describe.
pub open spec fn system_proxy_of(outs: Seq<Seq<char>>) -> SysproxyView {
    merged_proxy(proxy_from(outs[0]), proxy_from(outs[1]), proxy_from(outs[2]), bypass_from(outs[3]))
}

/// The writes that set `proxy` as the system proxy of `service`: server and state
/// of the SOCKS, HTTP and HTTPS proxies in turn, then the bypass list.
pub open spec fn system_proxy_writes(service: Seq<char>, proxy: SysproxyView) -> Seq<Seq<Seq<char>>> {
    seq![
        set_proxy_args(ProxyType::Socks, service, proxy),
        set_state_args(ProxyType::Socks, service, proxy.enable),
        set_proxy_args(ProxyType::Http, service, proxy),
        set_state_args(ProxyType::Http, service, proxy.enable),
        set_proxy_args(ProxyType::Https, service, proxy),
        set_state_args(ProxyType::Https, service, proxy.enable),
        set_bypass_args(service, proxy.bypass),
    ]
}

/// The writes that set a proxy kind on `service`: its server, then its state.
pub open spec fn proxy_kind_writes(kind: ProxyType, service: Seq<char>, proxy: SysproxyView) -> Seq<
    Seq<Seq<char>>,
> {
    seq![set_proxy_args(kind, service, proxy), set_state_args(kind, service, proxy.enable)]
}

/// The writes that set `auto` as the auto-proxy of `service`: its URL, then its state.
pub open spec fn auto_proxy_writes(service: Seq<char>, auto: AutoproxyView) -> Seq<Seq<Seq<char>>> {
    seq![set_auto_proxy_url_args(service, auto.url), set_auto_proxy_state_args(service, auto.enable)]
}

fn system_proxy_reads_exec(service: &str) -> (r: Vec<Vec<String>>)
    ensures
        r.deep_view() == system_proxy_reads(service@),
{
    let mut r: Vec<Vec<String>> = Vec::new();
    r.push(get_proxy_args_exec(ProxyType::Socks, service));
    r.push(get_proxy_args_exec(ProxyType::Http, service));
    r.push(get_proxy_args_exec(ProxyType::Https, service));
    r.push(get_bypass_args_exec(service));
    assert(r.deep_view() =~= system_proxy_reads(service@));
    r
}

fn system_proxy_writes_exec(service: &str, proxy: &Sysproxy) -> (r: Vec<Vec<String>>)
    ensures
        r.deep_view() == system_proxy_writes(service@, proxy@),
{
    let mut r: Vec<Vec<String>> = Vec::new();
    r.push(set_proxy_args_exec(ProxyType::Socks, service, proxy));
    r.push(set_state_args_exec(ProxyType::Socks, service, proxy.enable));
    r.push(set_proxy_args_exec(ProxyType::Http, service, proxy));
    r.push(set_state_args_exec(ProxyType::Http, service, proxy.enable));
    r.push(set_proxy_args_exec(ProxyType::Https, service, proxy));
    r.push(set_state_args_exec(ProxyType::Https, service, proxy.enable));
    r.push(set_bypass_args_exec(service, proxy.bypass.as_str()));
    assert(r.deep_view() =~= system_proxy_writes(service@, proxy@));
    r
}

fn auto_proxy_writes_exec(service: &str, auto: &Autoproxy) -> (r: Vec<Vec<String>>)
    ensures
        r.deep_view() == auto_proxy_writes(service@, auto@),
{
    let mut r: Vec<Vec<String>> = Vec::new();
    r.push(set_auto_proxy_url_args_exec(service, auto.url.as_str()));
    r.push(set_auto_proxy_state_args_exec(service, auto.enable));
    assert(r.deep_view() =~= auto_proxy_writes(service@, auto@));
    r
}

/// Reading the system proxy of the active service.
#[derive(Debug)]
pub struct SystemProxyQuery {
    stage: Stage,
}

impl View for SystemProxyQuery {
    type V = StageView;

    closed spec fn view(&self) -> StageView {
        self.stage@
    }
}

impl SystemProxyQuery {
    #[verifier::type_invariant]
    spec fn wf(self) -> bool {
        self.stage matches Stage::Running(b) ==> b.len() == 4
    }

    /// Continues with the outcome of the requested run.
    pub fn resume(self, o: Outcome) -> (r: Step<SystemProxyQuery, Sysproxy>)
        ensures
            r@ == stage_next(
                self@,
                o@,
                (|service: Seq<char>| system_proxy_reads(service)),
                (|outs: Seq<Seq<char>>| system_proxy_of(outs)),
            ),
    {
        proof {
            use_type_invariant(&self);
        }
        let step = match advance(self.stage, &o) {
            StageStep::Found(service) => begin(system_proxy_reads_exec(service.as_str())),
            other => other,
        };
        match step {
            StageStep::Next(stage, i) => Step::Run(SystemProxyQuery { stage }, i),
            StageStep::Failed(e) => Step::Done(Err(e)),
            StageStep::Found(_) => {
                proof {
                    assert(false);
                }
                Step::Done(Err(Error::NotSupport))
            },
            StageStep::Finished(outs) => {
                let socks = proxy_from_output(outs[0].as_str());
                let http = proxy_from_output(outs[1].as_str());
                let https = proxy_from_output(outs[2].as_str());
                let bypass = bypass_from_output(outs[3].as_str());
                Step::Done(Ok(merge_proxies(socks, http, https, bypass)))
            },
        }
    }
}

/// Setting the system proxy on the active service.
#[derive(Debug)]
pub struct SystemProxyUpdate {
    proxy: Sysproxy,
    stage: Stage,
}

pub struct SystemProxyUpdateView {
    pub proxy: SysproxyView,
    pub stage: StageView,
}

impl View for SystemProxyUpdate {
    type V = SystemProxyUpdateView;

    closed spec fn view(&self) -> SystemProxyUpdateView {
        SystemProxyUpdateView { proxy: self.proxy@, stage: self.stage@ }
    }
}

impl SystemProxyUpdate {
    /// Continues with the outcome of the requested run.
    pub fn resume(self, o: Outcome) -> (r: Step<SystemProxyUpdate, ()>)
        ensures
            r@ == match stage_next(
                self@.stage,
                o@,
                (|service: Seq<char>| system_proxy_writes(service, self@.proxy)),
                (|outs: Seq<Seq<char>>| ()),
            ) {
                StepView::Run(s, i) => StepView::Run(SystemProxyUpdateView { proxy: self@.proxy, stage: s }, i),
                StepView::Done(d) => StepView::Done(d),
            },
    {
        let SystemProxyUpdate { proxy, stage } = self;
        let step = match advance(stage, &o) {
            StageStep::Found(service) => begin(system_proxy_writes_exec(service.as_str(), &proxy)),
            other => other,
        };
        match step {
            StageStep::Next(stage, i) => Step::Run(SystemProxyUpdate { proxy, stage }, i),
            StageStep::Failed(e) => Step::Done(Err(e)),
            StageStep::Found(_) => {
                proof {
                    assert(false);
                }
                Step::Done(Err(Error::NotSupport))
            },
            StageStep::Finished(_) => Step::Done(Ok(())),
        }
    }
}

/// Reading the auto-proxy (PAC) settings of the active service.
#[derive(Debug)]
pub struct AutoProxyQuery {
    stage: Stage,
}

impl View for AutoProxyQuery {
    type V = StageView;

    closed spec fn view(&self) -> StageView {
        self.stage@
    }
}

impl AutoProxyQuery {
    #[verifier::type_invariant]
    spec fn wf(self) -> bool {
        self.stage matches Stage::Running(b) ==> b.len() == 1
    }

    /// Continues with the outcome of the requested run.
    pub fn resume(self, o: Outcome) -> (r: Step<AutoProxyQuery, Autoproxy>)
        ensures
            r@ == stage_next(
                self@,
                o@,
                (|service: Seq<char>| seq![get_auto_proxy_args(service)]),
                (|outs: Seq<Seq<char>>| auto_proxy_from(outs[0])),
            ),
    {
        proof {
            use_type_invariant(&self);
        }
        let step = match advance(self.stage, &o) {
            StageStep::Found(service) => {
                let mut reads: Vec<Vec<String>> = Vec::new();
                reads.push(get_auto_proxy_args_exec(service.as_str()));
                assert(reads.deep_view() =~= seq![get_auto_proxy_args(service@)]);
                begin(reads)
            },
            other => other,
        };
        match step {
            StageStep::Next(stage, i) => Step::Run(AutoProxyQuery { stage }, i),
            StageStep::Failed(e) => Step::Done(Err(e)),
            StageStep::Found(_) => {
                proof {
                    assert(false);
                }
                Step::Done(Err(Error::NotSupport))
            },
            StageStep::Finished(outs) => Step::Done(Ok(auto_proxy_from_output(outs[0].as_str()))),
        }
    }
}

/// Setting the auto-proxy (PAC) on the active service.
#[derive(Debug)]
pub struct AutoProxyUpdate {
    auto: Autoproxy,
    stage: Stage,
}

pub struct AutoProxyUpdateView {
    pub auto: AutoproxyView,
    pub stage: StageView,
}

impl View for AutoProxyUpdate {
    type V = AutoProxyUpdateView;

    closed spec fn view(&self) -> AutoProxyUpdateView {
        AutoProxyUpdateView { auto: self.auto@, stage: self.stage@ }
    }
}

impl AutoProxyUpdate {
    /// Continues with the outcome of the requested run.
    pub fn resume(self, o: Outcome) -> (r: Step<AutoProxyUpdate, ()>)
        ensures
            r@ == match stage_next(
                self@.stage,
                o@,
                (|service: Seq<char>| auto_proxy_writes(service, self@.auto)),
                (|outs: Seq<Seq<char>>| ()),
            ) {
                StepView::Run(s, i) => StepView::Run(AutoProxyUpdateView { auto: self@.auto, stage: s }, i),
                StepView::Done(d) => StepView::Done(d),
            },
    {
        let AutoProxyUpdate { auto, stage } = self;
        let step = match advance(stage, &o) {
            StageStep::Found(service) => begin(auto_proxy_writes_exec(service.as_str(), &auto)),
            other => other,
        };
        match step {
            StageStep::Next(stage, i) => Step::Run(AutoProxyUpdate { auto, stage }, i),
            StageStep::Failed(e) => Step::Done(Err(e)),
            StageStep::Found(_) => {
                proof {
                    assert(false);
                }
                Step::Done(Err(Error::NotSupport))
            },
            StageStep::Finished(_) => Step::Done(Ok(())),
        }
    }
}

// ---------------------------------------------------------------------------
// Operations on a named service
// ---------------------------------------------------------------------------

/// Reading one kind of proxy of a named service.
#[derive(Debug)]
pub struct ProxyRead {
    stage: Stage,
}

impl View for ProxyRead {
    type V = StageView;

    closed spec fn view(&self) -> StageView {
        self.stage@
    }
}

/// Reading the bypass list of a named service.
#[derive(Debug)]
pub struct BypassRead {
    stage: Stage,
}

impl View for BypassRead {
    type V = StageView;

    closed spec fn view(&self) -> StageView {
        self.stage@
    }
}

/// Writing settings of a named service.
#[derive(Debug)]
pub struct ServiceUpdate {
    stage: Stage,
}

impl View for ServiceUpdate {
    type V = StageView;

    closed spec fn view(&self) -> StageView {
        self.stage@
    }
}

/// The first step of a read of one proxy kind of `service`.
pub open spec fn proxy_read_start(kind: ProxyType, service: Seq<char>) -> StepView<StageView, SysproxyView> {
    from_batch(batch_start(seq![get_proxy_args(kind, service)]), |outs: Seq<Seq<char>>| proxy_from(outs[0]))
}

fn proxy_read_start_exec(kind: ProxyType, service: &str) -> (r: Step<ProxyRead, Sysproxy>)
    ensures
        r@ == proxy_read_start(kind, service@),
{
    let mut reads: Vec<Vec<String>> = Vec::new();
    reads.push(get_proxy_args_exec(kind, service));
    assert(reads.deep_view() =~= seq![get_proxy_args(kind, service@)]);
    match begin(reads) {
        StageStep::Next(stage, i) => Step::Run(ProxyRead { stage }, i),
        StageStep::Failed(e) => Step::Done(Err(e)),
        StageStep::Found(_) => {
            proof {
                assert(false);
            }
            Step::Done(Err(Error::NotSupport))
        },
        StageStep::Finished(outs) => Step::Done(Ok(proxy_from_output(outs[0].as_str()))),
    }
}

fn update_start_exec(commands: Vec<Vec<String>>) -> (r: Step<ServiceUpdate, ()>)
    ensures
        r@ == from_batch(batch_start(commands.deep_view()), |outs: Seq<Seq<char>>| ()),
{
    match begin(commands) {
        StageStep::Next(stage, i) => Step::Run(ServiceUpdate { stage }, i),
        StageStep::Failed(e) => Step::Done(Err(e)),
        StageStep::Found(_) => {
            proof {
                assert(false);
            }
            Step::Done(Err(Error::NotSupport))
        },
        StageStep::Finished(_) => Step::Done(Ok(())),
    }
}

impl ProxyRead {
    #[verifier::type_invariant]
    spec fn wf(self) -> bool {
        self.stage matches Stage::Running(b) && b.len() == 1
    }

    /// Continues with the outcome of the requested run.
    pub fn resume(self, o: Outcome) -> (r: Step<ProxyRead, Sysproxy>)
        ensures
            self@ is Running,
            r@ == from_batch(
                batch_next(self@->Running_0, o@),
                (|outs: Seq<Seq<char>>| proxy_from(outs[0])),
            ),
    {
        proof {
            use_type_invariant(&self);
        }
        match advance(self.stage, &o) {
            StageStep::Next(stage, i) => Step::Run(ProxyRead { stage }, i),
            StageStep::Failed(e) => Step::Done(Err(e)),
            StageStep::Found(_) => {
                proof {
                    assert(false);
                }
                Step::Done(Err(Error::NotSupport))
            },
            StageStep::Finished(outs) => Step::Done(Ok(proxy_from_output(outs[0].as_str()))),
        }
    }
}

impl BypassRead {
    #[verifier::type_invariant]
    spec fn wf(self) -> bool {
        self.stage matches Stage::Running(b) && b.len() == 1
    }

    /// Continues with the outcome of the requested run.
    pub fn resume(self, o: Outcome) -> (r: Step<BypassRead, String>)
        ensures
            self@ is Running,
            r@ == from_batch(
                batch_next(self@->Running_0, o@),
                (|outs: Seq<Seq<char>>| bypass_from(outs[0])),
            ),
    {
        proof {
            use_type_invariant(&self);
        }
        match advance(self.stage, &o) {
            StageStep::Next(stage, i) => Step::Run(BypassRead { stage }, i),
            StageStep::Failed(e) => Step::Done(Err(e)),
            StageStep::Found(_) => {
                proof {
                    assert(false);
                }
                Step::Done(Err(Error::NotSupport))
            },
            StageStep::Finished(outs) => Step::Done(Ok(bypass_from_output(outs[0].as_str()))),
        }
    }
}

impl ServiceUpdate {
    #[verifier::type_invariant]
    spec fn wf(self) -> bool {
        self.stage is Running
    }

    /// Continues with the outcome of the requested run.
    pub fn resume(self, o: Outcome) -> (r: Step<ServiceUpdate, ()>)
        ensures
            self@ is Running,
            r@ == from_batch(batch_next(self@->Running_0, o@), (|outs: Seq<Seq<char>>| ())),
    {
        proof {
            use_type_invariant(&self);
        }
        match advance(self.stage, &o) {
            StageStep::Next(stage, i) => Step::Run(ServiceUpdate { stage }, i),
            StageStep::Failed(e) => Step::Done(Err(e)),
            StageStep::Found(_) => {
                proof {
                    assert(false);
                }
                Step::Done(Err(Error::NotSupport))
            },
            StageStep::Finished(_) => Step::Done(Ok(())),
        }
    }
}

impl Sysproxy {
    /// Gets the current system proxy settings on the active service: the SOCKS
    /// proxy if enabled, else the enabled HTTP or HTTPS proxy, with the bypass list.
    pub fn get_system_proxy() -> (r: Step<SystemProxyQuery, Sysproxy>)
        ensures
            r@ == StepView::<StageView, SysproxyView>::Run(
                StageView::Lookup((ServiceLookupView::Route { fallback: true })),
                InvocationView::DefaultRoute,
            ),
    {
        Step::Run(SystemProxyQuery { stage: Stage::Lookup(resolve_service()) }, Invocation::DefaultRoute)
    }

    /// Sets the system proxy on the active service; the first failing
    /// `networksetup` run ends it with its error.
    pub fn set_system_proxy(&self) -> (r: Step<SystemProxyUpdate, ()>)
        ensures
            r@ == StepView::<SystemProxyUpdateView, ()>::Run(
                (SystemProxyUpdateView {
                    proxy: self@,
                    stage: StageView::Lookup((ServiceLookupView::Route { fallback: true })),
                }),
                InvocationView::DefaultRoute,
            ),
    {
        Step::Run(
            SystemProxyUpdate { proxy: self.clone_proxy(), stage: Stage::Lookup(resolve_service()) },
            Invocation::DefaultRoute,
        )
    }

    /// A copy of this proxy.
    pub fn clone_proxy(&self) -> (r: Sysproxy)
        ensures
            r@ == self@,
    {
        Sysproxy {
            enable: self.enable,
            host: self.host.clone(),
            port: self.port,
            bypass: self.bypass.clone(),
        }
    }

    /// Reads the HTTP proxy of `service`.
    pub fn get_http(service: &str) -> (r: Step<ProxyRead, Sysproxy>)
        ensures
            r@ == proxy_read_start(ProxyType::Http, service@),
    {
        proxy_read_start_exec(ProxyType::Http, service)
    }

    /// Reads the HTTPS proxy of `service`.
    pub fn get_https(service: &str) -> (r: Step<ProxyRead, Sysproxy>)
        ensures
            r@ == proxy_read_start(ProxyType::Https, service@),
    {
        proxy_read_start_exec(ProxyType::Https, service)
    }

    /// Reads the SOCKS proxy of `service`.
    pub fn get_socks(service: &str) -> (r: Step<ProxyRead, Sysproxy>)
        ensures
            r@ == proxy_read_start(ProxyType::Socks, service@),
    {
        proxy_read_start_exec(ProxyType::Socks, service)
    }

    /// Reads the bypass list of `service`, its entries joined by `,`.
    pub fn get_bypass(service: &str) -> (r: Step<BypassRead, String>)
        ensures
            r@ == from_batch(
                batch_start(seq![get_bypass_args(service@)]),
                (|outs: Seq<Seq<char>>| bypass_from(outs[0])),
            ),
    {
        let mut reads: Vec<Vec<String>> = Vec::new();
        reads.push(get_bypass_args_exec(service));
        assert(reads.deep_view() =~= seq![get_bypass_args(service@)]);
        match begin(reads) {
            StageStep::Next(stage, i) => Step::Run(BypassRead { stage }, i),
            StageStep::Failed(e) => Step::Done(Err(e)),
            StageStep::Found(_) => {
                proof {
                    assert(false);
                }
                Step::Done(Err(Error::NotSupport))
            },
            StageStep::Finished(outs) => Step::Done(Ok(bypass_from_output(outs[0].as_str()))),
        }
    }

    /// Sets this proxy as the HTTP proxy of `service`.
    pub fn set_http(&self, service: &str) -> (r: Step<ServiceUpdate, ()>)
        ensures
            r@ == from_batch(
                batch_start(proxy_kind_writes(ProxyType::Http, service@, self@)),
                (|outs: Seq<Seq<char>>| ()),
            ),
    {
        self.set_kind(ProxyType::Http, service)
    }

    /// Sets this proxy as the HTTPS proxy of `service`.
    pub fn set_https(&self, service: &str) -> (r: Step<ServiceUpdate, ()>)
        ensures
            r@ == from_batch(
                batch_start(proxy_kind_writes(ProxyType::Https, service@, self@)),
                (|outs: Seq<Seq<char>>| ()),
            ),
    {
        self.set_kind(ProxyType::Https, service)
    }

    /// Sets this proxy as the SOCKS proxy of `service`.
    pub fn set_socks(&self, service: &str) -> (r: Step<ServiceUpdate, ()>)
        ensures
            r@ == from_batch(
                batch_start(proxy_kind_writes(ProxyType::Socks, service@, self@)),
                (|outs: Seq<Seq<char>>| ()),
            ),
    {
        self.set_kind(ProxyType::Socks, service)
    }

    fn set_kind(&self, kind: ProxyType, service: &str) -> (r: Step<ServiceUpdate, ()>)
        ensures
            r@ == from_batch(
                batch_start(proxy_kind_writes(kind, service@, self@)),
                (|outs: Seq<Seq<char>>| ()),
            ),
    {
        let mut writes: Vec<Vec<String>> = Vec::new();
        writes.push(set_proxy_args_exec(kind, service, self));
        writes.push(set_state_args_exec(kind, service, self.enable));
        assert(writes.deep_view() =~= proxy_kind_writes(kind, service@, self@));
        update_start_exec(writes)
    }

    /// Sets this proxy's bypass list on `service`: each non-empty item of the
    /// comma-separated list becomes one domain.
    pub fn set_bypass(&self, service: &str) -> (r: Step<ServiceUpdate, ()>)
        ensures
            r@ == from_batch(
                batch_start(seq![set_bypass_args(service@, self@.bypass)]),
                (|outs: Seq<Seq<char>>| ()),
            ),
    {
        let mut writes: Vec<Vec<String>> = Vec::new();
        writes.push(set_bypass_args_exec(service, self.bypass.as_str()));
        assert(writes.deep_view() =~= seq![set_bypass_args(service@, self@.bypass)]);
        update_start_exec(writes)
    }
}

impl Autoproxy {
    /// Gets the current auto-proxy (PAC) settings of the active service.
    pub fn get_auto_proxy() -> (r: Step<AutoProxyQuery, Autoproxy>)
        ensures
            r@ == StepView::<StageView, AutoproxyView>::Run(
                StageView::Lookup((ServiceLookupView::Route { fallback: true })),
                InvocationView::DefaultRoute,
            ),
    {
        Step::Run(AutoProxyQuery { stage: Stage::Lookup(resolve_service()) }, Invocation::DefaultRoute)
    }

    /// Sets the auto-proxy (PAC) configuration of the active service.
    pub fn set_auto_proxy(&self) -> (r: Step<AutoProxyUpdate, ()>)
        ensures
            r@ == StepView::<AutoProxyUpdateView, ()>::Run(
                (AutoProxyUpdateView {
                    auto: self@,
                    stage: StageView::Lookup((ServiceLookupView::Route { fallback: true })),
                }),
                InvocationView::DefaultRoute,
            ),
    {
        let auto = Autoproxy { enable: self.enable, url: self.url.clone() };
        Step::Run(AutoProxyUpdate { auto, stage: Stage::Lookup(resolve_service()) }, Invocation::DefaultRoute)
    }
}

// ---------------------------------------------------------------------------
// Clearing a proxy everywhere
// ---------------------------------------------------------------------------

#[derive(Debug, Clone, Copy, PartialEq, Eq)]
pub enum ClearPhase {
    /// Waiting for the list of services.
    Listing,
    /// Waiting for the current proxy of the pair at `pos`.
    Reading,
    /// Waiting for that proxy to be switched off.
    Disabling,
}

/// Switching off, on every enabled service, each proxy kind whose server is `host`.
/// The (service, kind) pairs are visited in order, the kinds of a service being
/// HTTP, HTTPS and SOCKS; `pos` counts the pairs visited.
#[derive(Debug)]
pub struct ProxyClearing {
    host: String,
    services: Vec<String>,
    index: usize,
    kind: usize,
    phase: ClearPhase,
}

pub struct ProxyClearingView {
    pub host: Seq<char>,
    pub services: Seq<Seq<char>>,
    pub pos: nat,
    pub phase: ClearPhase,
}

impl View for ProxyClearing {
    type V = ProxyClearingView;

    closed spec fn view(&self) -> ProxyClearingView {
        ProxyClearingView {
            host: self.host@,
            services: self.services.deep_view(),
            pos: (3 * self.index + self.kind) as nat,
            phase: self.phase,
        }
    }
}

/// The kind visited at pair `p`.
pub open spec fn clear_kind(p: nat) -> ProxyType {
    if p % 3 == 0 {
        ProxyType::Http
    } else if p % 3 == 1 {
        ProxyType::Https
    } else {
        ProxyType::Socks
    }
}

/// Visiting pair `p`: reading its proxy, or finishing after the last pair.
pub open spec fn clear_at(host: Seq<char>, services: Seq<Seq<char>>, p: nat) -> StepView<
    ProxyClearingView,
    (),
> {
    if p >= 3 * services.len() {
        StepView::Done(Ok(()))
    } else {
        StepView::Run(
            ProxyClearingView { host, services, pos: p, phase: ClearPhase::Reading },
            InvocationView::Networksetup(get_proxy_args(clear_kind(p), services[p as int / 3])),
        )
    }
}

/// The next step of clearing: after the listing, the first pair is visited; a
/// proxy that is enabled with server `host` is switched off before the next pair;
/// any failure ends the clearing with its error.
pub open spec fn clearing_next(s: ProxyClearingView, o: OutcomeView) -> StepView<ProxyClearingView, ()> {
    let service = s.services[s.pos as int / 3];
    let kind = clear_kind(s.pos);
    match s.phase {
        ClearPhase::Listing => match networksetup_result(all_services_args(), o) {
            Err(e) => StepView::Done(Err(e)),
            Ok(out) => clear_at(s.host, services_from(out), 0),
        },
        ClearPhase::Reading => match networksetup_result(get_proxy_args(kind, service), o) {
            Err(e) => StepView::Done(Err(e)),
            Ok(out) => {
                let current = proxy_from(out);
                if current.enable && current.host == s.host {
                    StepView::Run(
                        ProxyClearingView { phase: ClearPhase::Disabling, ..s },
                        InvocationView::Networksetup(set_state_args(kind, service, false)),
                    )
                } else {
                    clear_at(s.host, s.services, s.pos + 1)
                }
            },
        },
        ClearPhase::Disabling => match networksetup_result(set_state_args(kind, service, false), o) {
            Err(e) => StepView::Done(Err(e)),
            Ok(_) => clear_at(s.host, s.services, s.pos + 1),
        },
    }
}

proof fn lemma_clear_kind(i: nat, k: nat)
    requires
        k < 3,
    ensures
        clear_kind(3 * i + k) == clear_kind(k),
        (3 * i + k) / 3 == i,
{
    assert((3 * i + k) % 3 == k && (3 * i + k) / 3 == i) by (nonlinear_arith)
        requires
            k < 3,
    ;
}

fn clear_kind_exec(k: usize) -> (r: ProxyType)
    requires
        k < 3,
    ensures
        r == clear_kind(k as nat),
{
    if k == 0 {
        ProxyType::Http
    } else if k == 1 {
        ProxyType::Https
    } else {
        ProxyType::Socks
    }
}

impl ProxyClearing {
    #[verifier::type_invariant]
    spec fn wf(self) -> bool {
        &&& self.kind < 3
        &&& self.phase != ClearPhase::Listing ==> self.index < self.services@.len()
    }

    fn visit(host: String, services: Vec<String>, index: usize, kind: usize) -> (r: Step<ProxyClearing, ()>)
        requires
            kind < 3,
            index <= services@.len(),
            index == services@.len() ==> kind == 0,
        ensures
            r@ == clear_at(host@, services.deep_view(), (3 * index + kind) as nat),
    {
        if index >= services.len() {
            Step::Done(Ok(()))
        } else {
            assert((3 * index + kind) / 3 == index);
            let k = clear_kind_exec(kind);
            assert(k == clear_kind((3 * index + kind) as nat)) by {
                    lemma_clear_kind(index as nat, kind as nat);
                }
            let args = get_proxy_args_exec(k, services[index].as_str());
            Step::Run(
                ProxyClearing { host, services, index, kind, phase: ClearPhase::Reading },
                Invocation::Networksetup(args),
            )
        }
    }

    fn visit_next(host: String, services: Vec<String>, index: usize, kind: usize) -> (r: Step<ProxyClearing, ()>)
        requires
            kind < 3,
            index < services@.len(),
        ensures
            r@ == clear_at(host@, services.deep_view(), (3 * index + kind + 1) as nat),
    {
        let n = services.len();
        assert(index < n);
        if kind + 1 < 3 {
            ProxyClearing::visit(host, services, index, kind + 1)
        } else {
            ProxyClearing::visit(host, services, index + 1, 0)
        }
    }

    /// Continues with the outcome of the requested run.
    pub fn resume(self, o: Outcome) -> (r: Step<ProxyClearing, ()>)
        ensures
            r@ == clearing_next(self@, o@),
    {
        proof {
            use_type_invariant(&self);
        }
        let ProxyClearing { host, services, index, kind, phase } = self;
        assert((3 * index + kind) / 3 == index);
        match phase {
            ClearPhase::Listing => {
                let args = all_services_args_exec();
                match check_networksetup(&args, &o) {
                    Err(e) => Step::Done(Err(e)),
                    Ok(out) => {
                        let found = services_from_output(out.as_str());
                        ProxyClearing::visit(host, found, 0, 0)
                    },
                }
            },
            ClearPhase::Reading => {
                let k = clear_kind_exec(kind);
                assert(k == clear_kind((3 * index + kind) as nat)) by {
                    lemma_clear_kind(index as nat, kind as nat);
                }
                let args = get_proxy_args_exec(k, services[index].as_str());
                match check_networksetup(&args, &o) {
                    Err(e) => Step::Done(Err(e)),
                    Ok(out) => {
                        let current = proxy_from_output(out.as_str());
                        if current.enable && current.host == host {
                            let off = set_state_args_exec(k, services[index].as_str(), false);
                            Step::Run(
                                ProxyClearing { host, services, index, kind, phase: ClearPhase::Disabling },
                                Invocation::Networksetup(off),
                            )
                        } else {
                            ProxyClearing::visit_next(host, services, index, kind)
                        }
                    },
                }
            },
            ClearPhase::Disabling => {
                let k = clear_kind_exec(kind);
                assert(k == clear_kind((3 * index + kind) as nat)) by {
                    lemma_clear_kind(index as nat, kind as nat);
                }
                let args = set_state_args_exec(k, services[index].as_str(), false);
                match check_networksetup(&args, &o) {
                    Err(e) => Step::Done(Err(e)),
                    Ok(_) => ProxyClearing::visit_next(host, services, index, kind),
                }
            },
        }
    }
}

/// Disables the system proxy on every enabled service whose configured proxy
/// server is `host`, whatever service is active now.
pub fn clear_proxy(host: &str) -> (r: Step<ProxyClearing, ()>)
    ensures
        r@ == StepView::<ProxyClearingView, ()>::Run(
            (ProxyClearingView {
                host: host@,
                services: Seq::empty(),
                pos: 0,
                phase: ClearPhase::Listing,
            }),
            InvocationView::Networksetup(all_services_args()),
        ),
{
    let services: Vec<String> = Vec::new();
    assert(services.deep_view() =~= Seq::<Seq<char>>::empty());
    Step::Run(
        ProxyClearing { host: owned(host), services, index: 0, kind: 0, phase: ClearPhase::Listing },
        Invocation::Networksetup(all_services_args_exec()),
    )
}


// ---------------------------------------------------------------------------
// Laws
// ---------------------------------------------------------------------------

proof fn lemma_nonempty_items_plain(items: Seq<Seq<char>>)
    requires
        forall|k: int| 0 <= k < items.len() ==> plain_item(#[trigger] items[k]),
    ensures
        nonempty_items(items) == items,
    decreases items.len(),
{
    if items.len() > 0 {
        assert(plain_item(items[items.len() - 1]));
        lemma_nonempty_items_plain(items.drop_last());
        assert(items.drop_last().push(items.last()) =~= items);
    }
}

/// A bypass list of plain domains joined by commas is written as exactly those
/// domains, and a report that lists them one per line reads back as the list.
pub proof fn law_bypass_reads_back(service: Seq<char>, items: Seq<Seq<char>>)
    requires
        forall|k: int| 0 <= k < items.len() ==> plain_item(#[trigger] items[k]),
    ensures
        set_bypass_args(service, join(items, ","@)) == seq!["-setproxybypassdomains"@, service] + items,
        bypass_from(bypass_report(items)) == join(items, ","@),
{
    crate::macos::lemma_split_join(items);
    if items.len() > 0 {
        lemma_nonempty_items_plain(items);
    } else {
        let one = seq![Seq::<char>::empty()];
        assert(one.drop_last() =~= Seq::<Seq<char>>::empty());
        assert(one.last().len() == 0);
        assert(nonempty_items(one.drop_last()) == Seq::<Seq<char>>::empty());
        assert(nonempty_items(one) =~= Seq::<Seq<char>>::empty());
        assert(items =~= Seq::<Seq<char>>::empty());
    }
    crate::macos::law_bypass_report_reads_back(items);
}

/// A system proxy set on a service reads back as it was set: the writes pass its
/// host, port and state for each kind and its bypass domains, and when
/// `networksetup` reports those for the SOCKS, HTTP and HTTPS proxies and lists
/// the domains, the system proxy read from the reports is the one that was set.
pub proof fn law_system_proxy_reads_back(
    service: Seq<char>,
    enable: bool,
    host: Seq<char>,
    port: u16,
    items: Seq<Seq<char>>,
)
    requires
        plain_host(host),
        forall|k: int| 0 <= k < items.len() ==> plain_item(#[trigger] items[k]),
    ensures
        ({
            let p = SysproxyView { enable, host, port, bypass: join(items, ","@) };
            &&& forall|k: int|
                0 <= k < 3 ==> #[trigger] system_proxy_writes(service, p)[2 * k] == seq![
                    system_proxy_writes(service, p)[2 * k][0],
                    service,
                    host,
                    dec_repr(port as nat),
                ]
            &&& forall|k: int|
                0 <= k < 3 ==> #[trigger] system_proxy_writes(service, p)[2 * k + 1][2] == on_off(
                    enable,
                )
            &&& system_proxy_writes(service, p)[6] == seq!["-setproxybypassdomains"@, service] + items
            &&& system_proxy_of(
                seq![
                    proxy_report(enable, host, port),
                    proxy_report(enable, host, port),
                    proxy_report(enable, host, port),
                    bypass_report(items),
                ],
            ) == p
        }),
{
    crate::macos::law_proxy_report_reads_back(enable, host, port);
    law_bypass_reads_back(service, items);
    let p = SysproxyView { enable, host, port, bypass: join(items, ","@) };
    let w = system_proxy_writes(service, p);
    assert forall|k: int| 0 <= k < 3 implies #[trigger] w[2 * k] == seq![w[2 * k][0], service, host, dec_repr(port as nat)] by {
        assert(w[2 * k] =~= seq![w[2 * k][0], service, host, dec_repr(port as nat)]);
    }
}


/// An auto-proxy set on a service reads back as it was set: the writes pass its
/// URL (`""` for an empty one) and then its state, and when `networksetup`
/// reports them, the auto-proxy read from the report is the one that was set.
pub proof fn law_auto_proxy_set_reads_back(service: Seq<char>, enable: bool, url: Seq<char>)
    requires
        plain_url(url),
    ensures
        ({
            let a = AutoproxyView { enable, url };
            &&& auto_proxy_writes(service, a) == seq![
                seq![
                    "-setautoproxyurl"@,
                    service,
                    if url.len() == 0 {
                        "\"\""@
                    } else {
                        url
                    },
                ],
                seq!["-setautoproxystate"@, service, on_off(enable)],
            ]
            &&& auto_proxy_from(auto_proxy_report(enable, url)) == a
        }),
{
    crate::macos::law_auto_proxy_report_reads_back(enable, url);
}


/// A lookup that may fall back never fails before the list of all services was
/// tried: from the route or order stage with fallback, each outcome leads either
/// on (to the service order, or to the service found) or to running
/// `networksetup -listallnetworkservices`; in particular an interface that maps
/// to no service falls back.
pub proof fn law_lookup_falls_back(s: ServiceLookupView, o: OutcomeView)
    requires
        s matches ServiceLookupView::Route { fallback: true } || s matches ServiceLookupView::Order {
            fallback: true,
            ..
        },
    ensures
        !(lookup_next(s, o) matches StepView::Done(Err(_))),
        s matches ServiceLookupView::Order { .. } && !(lookup_next(s, o) matches StepView::Done(Ok(_)))
            ==> lookup_next(s, o) == StepView::<ServiceLookupView, Seq<char>>::Run(
            ServiceLookupView::Services,
            InvocationView::Networksetup(seq!["-listallnetworkservices"@]),
        ),
        s matches ServiceLookupView::Route { .. } && !(lookup_next(s, o) matches StepView::Run(
            ServiceLookupView::Order { .. },
            _,
        )) ==> lookup_next(s, o) == StepView::<ServiceLookupView, Seq<char>>::Run(
            ServiceLookupView::Services,
            InvocationView::Networksetup(seq!["-listallnetworkservices"@]),
        ),
{
}

/// The reads of the system proxy are, in order, the SOCKS, HTTP and HTTPS
/// proxies and the bypass list; the system proxy read from their reports is the
/// SOCKS proxy when it is enabled, else the HTTP proxy when that is, else the
/// HTTPS proxy when that is, else disabled; its bypass list is the one read.
pub proof fn law_system_proxy_prefers_socks(service: Seq<char>, outs: Seq<Seq<char>>)
    requires
        outs.len() == 4,
    ensures
        system_proxy_reads(service) == seq![
            seq!["-getsocksfirewallproxy"@, service],
            seq!["-getwebproxy"@, service],
            seq!["-getsecurewebproxy"@, service],
            seq!["-getproxybypassdomains"@, service],
        ],
        ({
            let socks = proxy_from(outs[0]);
            let http = proxy_from(outs[1]);
            let https = proxy_from(outs[2]);
            let r = system_proxy_of(outs);
            &&& r.bypass == bypass_from(outs[3])
            &&& socks.enable ==> r.enable && r.host == socks.host && r.port == socks.port
            &&& !socks.enable && http.enable ==> r.enable && r.host == http.host && r.port == http.port
            &&& !socks.enable && !http.enable && https.enable ==> r.enable && r.host == https.host && r.port
                == https.port
            &&& !socks.enable && !http.enable && !https.enable ==> !r.enable
        }),
{
    reveal_strlit("-get");
    reveal_strlit("socksfirewallproxy");
    reveal_strlit("webproxy");
    reveal_strlit("securewebproxy");
    reveal_strlit("-getsocksfirewallproxy");
    reveal_strlit("-getwebproxy");
    reveal_strlit("-getsecurewebproxy");
    assert("-get"@ + "socksfirewallproxy"@ =~= "-getsocksfirewallproxy"@);
    assert("-get"@ + "webproxy"@ =~= "-getwebproxy"@);
    assert("-get"@ + "securewebproxy"@ =~= "-getsecurewebproxy"@);
}

/// Reports that differ per kind read back in that order of preference: with
/// plain hosts, the SOCKS report's proxy when it says `Enabled: Yes`, else the
/// HTTP one's, else the HTTPS one's, else a disabled proxy; the bypass list is
/// the reported domains joined by commas.
pub proof fn law_system_proxy_reports_merge(
    socks: (bool, Seq<char>, u16),
    http: (bool, Seq<char>, u16),
    https: (bool, Seq<char>, u16),
    items: Seq<Seq<char>>,
)
    requires
        plain_host(socks.1),
        plain_host(http.1),
        plain_host(https.1),
        forall|k: int| 0 <= k < items.len() ==> plain_item(#[trigger] items[k]),
    ensures
        ({
            let r = system_proxy_of(
                seq![
                    proxy_report(socks.0, socks.1, socks.2),
                    proxy_report(http.0, http.1, http.2),
                    proxy_report(https.0, https.1, https.2),
                    bypass_report(items),
                ],
            );
            &&& r.bypass == join(items, ","@)
            &&& socks.0 ==> r.enable && r.host == socks.1 && r.port == socks.2
            &&& !socks.0 && http.0 ==> r.enable && r.host == http.1 && r.port == http.2
            &&& !socks.0 && !http.0 && https.0 ==> r.enable && r.host == https.1 && r.port == https.2
            &&& !socks.0 && !http.0 && !https.0 ==> !r.enable
        }),
{
    crate::macos::law_proxy_report_reads_back(socks.0, socks.1, socks.2);
    crate::macos::law_proxy_report_reads_back(http.0, http.1, http.2);
    crate::macos::law_proxy_report_reads_back(https.0, https.1, https.2);
    crate::macos::law_bypass_report_reads_back(items);
    let outs = seq![
        proxy_report(socks.0, socks.1, socks.2),
        proxy_report(http.0, http.1, http.2),
        proxy_report(https.0, https.1, https.2),
        bypass_report(items),
    ];
    law_system_proxy_prefers_socks(Seq::empty(), outs);
}

/// Clearing visits every (service, kind) pair of the listed services: it never
/// ends successfully before the last pair, each pair is read with the `-get`
/// command of its kind on its service (HTTP, HTTPS, then SOCKS for each service
/// in turn), and a proxy read as enabled with server `host` is switched off with
/// `-set<kind>state <service> off` before going on.
pub proof fn law_clearing_visits_every_pair(s: ProxyClearingView, o: OutcomeView)
    requires
        s.phase != ClearPhase::Listing ==> s.pos < 3 * s.services.len(),
    ensures
        s.phase != ClearPhase::Listing && s.pos + 1 < 3 * s.services.len() ==> !(clearing_next(s, o) matches StepView::Done(Ok(_))),
        forall|p: nat, h: Seq<char>, sv: Seq<Seq<char>>| #![trigger clear_at(h, sv, p)]
            p < 3 * sv.len() ==> clear_at(h, sv, p) == StepView::<ProxyClearingView, ()>::Run(
                ProxyClearingView { host: h, services: sv, pos: p, phase: ClearPhase::Reading },
                InvocationView::Networksetup(seq!["-get"@ + clear_kind(p).target_text(), sv[p as int / 3]]),
            ),
        forall|i: int, k: nat| 0 <= i && k < 3 ==> #[trigger] clear_kind((3 * i + k) as nat) == (if k == 0 {
            ProxyType::Http
        } else if k == 1 {
            ProxyType::Https
        } else {
            ProxyType::Socks
        }),
        s.phase == ClearPhase::Listing ==> match networksetup_result(seq!["-listallnetworkservices"@], o) {
            Ok(out) => services_from(out).len() > 0 ==> clearing_next(s, o) == clear_at(s.host, services_from(out), 0),
            Err(e) => clearing_next(s, o) == StepView::<ProxyClearingView, ()>::Done(Err(e)),
        },
        s.phase == ClearPhase::Reading ==> (networksetup_result(
            seq!["-get"@ + clear_kind(s.pos).target_text(), s.services[s.pos as int / 3]],
            o,
        ) matches Ok(out) && proxy_from(out).enable && proxy_from(out).host == s.host ==> clearing_next(s, o)
            == StepView::<ProxyClearingView, ()>::Run(
            ProxyClearingView { phase: ClearPhase::Disabling, ..s },
            InvocationView::Networksetup(
                seq!["-set"@ + clear_kind(s.pos).target_text() + "state"@, s.services[s.pos as int / 3], "off"@],
            ),
        )),
{
    assert forall|i: int, k: nat| 0 <= i && k < 3 implies #[trigger] clear_kind((3 * i + k) as nat) == (if k == 0 {
        ProxyType::Http
    } else if k == 1 {
        ProxyType::Https
    } else {
        ProxyType::Socks
    }) by {
        lemma_clear_kind(i as nat, k);
    }
}

} // verus!

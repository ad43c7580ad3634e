//! Network diagnostics: turning the measurements of a staged check (adapter,
//! router, ISP, DNS, internet) into a verdict, a weighted score and a
//! recommendation. The measurements themselves come from outside; everything
//! that is decided from them lives here.

use vstd::prelude::*;
use vstd::string::StringExecFns;

use crate::score::lemma_scaled_ratio_le;
use crate::util::{dec_digits, u64_to_string};

verus! {

/// Overall health verdict of the connection.
#[derive(Debug, Clone, Copy, PartialEq, Eq, Structural)]
pub enum NetworkHealth {
    /// Everything fast.
    Excellent,
    /// Fine, no action needed.
    Good,
    /// Usable, could be tuned.
    Fair,
    /// Noticeably slow.
    Poor,
    /// Very slow.
    Bad,
    /// No connection at all.
    Down,
}

impl NetworkHealth {
    /// The verdict's display text.
    pub fn label(&self) -> (r: String)
        ensures
            r@ == match *self {
                NetworkHealth::Excellent => "Excelente"@,
                NetworkHealth::Good => "Buena"@,
                NetworkHealth::Fair => "Regular"@,
                NetworkHealth::Poor => "Lenta"@,
                NetworkHealth::Bad => "Mala"@,
                NetworkHealth::Down => "Sin conexión"@,
            },
    {
        match self {
            NetworkHealth::Excellent => String::from_str("Excelente"),
            NetworkHealth::Good => String::from_str("Buena"),
            NetworkHealth::Fair => String::from_str("Regular"),
            NetworkHealth::Poor => String::from_str("Lenta"),
            NetworkHealth::Bad => String::from_str("Mala"),
            NetworkHealth::Down => String::from_str("Sin conexión"),
        }
    }
}

/// Where a staged check found the first problem.
#[derive(Debug, Clone, Copy, PartialEq, Eq, Structural)]
pub enum FailurePoint {
    /// Everything passed.
    NoFault,
    /// No active network adapter.
    Adapter,
    /// The local router is unreachable.
    Router,
    /// No connectivity past the router.
    Isp,
    /// Name resolution does not work.
    Dns,
    /// Resolution works, but the internet is unreachable.
    Internet,
}

/// The full report of a staged diagnostic.
#[derive(Debug)]
pub struct DiagnosticResult {
    /// The verdict.
    pub health: NetworkHealth,
    /// Weighted score in whole points, 0 to 100.
    pub score: u64,
    /// Where the check stopped, if it did.
    pub failure_point: FailurePoint,
    /// Whether an active adapter was found.
    pub adapter_ok: bool,
    /// Its name, when found.
    pub adapter_name: String,
    /// Whether the router answered.
    pub router_ok: bool,
    /// The router's latency in milliseconds.
    pub router_latency_ms: u64,
    /// Whether the ISP path answered.
    pub isp_ok: bool,
    /// Its latency in milliseconds.
    pub isp_latency_ms: u64,
    /// Whether DNS answered.
    pub dns_ok: bool,
    /// Its latency in milliseconds.
    pub dns_latency_ms: u64,
    /// Whether the open internet answered.
    pub internet_ok: bool,
    /// Its latency in milliseconds.
    pub internet_latency_ms: u64,
    /// What to do about it.
    pub recommendation: String,
}

/// The outcome of a quick connectivity check.
#[derive(Debug)]
pub struct QuickCheckResult {
    /// Whether the internet answered at all.
    pub connected: bool,
    /// The measured latency in milliseconds, 0 when disconnected.
    pub latency_ms: u64,
    /// A one-line summary.
    pub message: String,
}

/// A latency graded against four thresholds, in hundredths of a point:
/// 100.00 up to `excellent`, then linear decays to 95, 90, 80 and 65 at the
/// following thresholds, and from there linearly toward zero.
pub open spec fn latency_score_centi(l: int, excellent: int, good: int, fair: int, poor: int) -> int {
    if l <= 0 {
        10000
    } else if l <= excellent {
        10000
    } else if l <= good {
        9500 - (l - excellent) * 500 / (good - excellent)
    } else if l <= fair {
        9000 - (l - good) * 1000 / (fair - good)
    } else if l <= poor {
        8000 - (l - fair) * 1500 / (poor - fair)
    } else {
        let down = (l - poor) * 3000 / poor;
        if down <= 6500 {
            6500 - down
        } else {
            0
        }
    }
}

/// The graded latency never leaves 0..=10000.
pub proof fn lemma_latency_score_in_range(l: int, excellent: int, good: int, fair: int, poor: int)
    requires
        0 <= excellent < good < fair < poor,
    ensures
        0 <= latency_score_centi(l, excellent, good, fair, poor) <= 10000,
{
    if l <= 0 || l <= excellent {
    } else if l <= good {
        lemma_scaled_ratio_le(l - excellent, good - excellent, 500);
    } else if l <= fair {
        lemma_scaled_ratio_le(l - good, fair - good, 1000);
    } else if l <= poor {
        lemma_scaled_ratio_le(l - fair, poor - fair, 1500);
    } else {
        vstd::arithmetic::div_mod::lemma_div_pos_is_pos((l - poor) * 3000, poor);
        vstd::arithmetic::mul::lemma_mul_nonnegative(l - poor, 3000);
    }
}

/// Grades one latency measurement.
pub fn latency_to_score(l: u64, excellent: u64, good: u64, fair: u64, poor: u64) -> (r: u64)
    requires
        excellent < good < fair < poor,
    ensures
        r == latency_score_centi(l as int, excellent as int, good as int, fair as int, poor as int),
        r <= 10000,
{
    proof {
        lemma_latency_score_in_range(
            l as int,
            excellent as int,
            good as int,
            fair as int,
            poor as int,
        );
    }
    if l == 0 {
        10000
    } else if l <= excellent {
        10000
    } else if l <= good {
        9500 - ((l - excellent) as u128 * 500 / ((good - excellent) as u128)) as u64
    } else if l <= fair {
        9000 - ((l - good) as u128 * 1000 / ((fair - good) as u128)) as u64
    } else if l <= poor {
        8000 - ((l - fair) as u128 * 1500 / ((poor - fair) as u128)) as u64
    } else {
        let down = (l - poor) as u128 * 3000 / (poor as u128);
        if down <= 6500 {
            6500 - (down as u64)
        } else {
            0
        }
    }
}

/// The weighted blend of the four stage scores: router 10%, ISP 15%, DNS 25%
/// and the internet 50%; an unreachable internet contributes a flat 40.00,
/// and an unmeasured router (direct ISP link) a full 100.00.
pub open spec fn diagnostic_score_centi(
    router_latency: int,
    isp_latency: int,
    dns_latency: int,
    internet: Option<u64>,
) -> int {
    let router = if router_latency == 0 {
        10000
    } else {
        latency_score_centi(router_latency, 5, 20, 50, 100)
    };
    let isp = latency_score_centi(isp_latency, 20, 50, 100, 200);
    let dns = latency_score_centi(dns_latency, 20, 40, 80, 150);
    let internet_score = match internet {
        Some(l) => latency_score_centi(l as int, 100, 200, 350, 500),
        None => 4000,
    };
    (router * 10 + isp * 15 + dns * 25 + internet_score * 50) / 100
}

/// The verdict thresholds over the weighted score.
pub open spec fn health_of_centi(score: int) -> NetworkHealth {
    if score >= 8500 {
        NetworkHealth::Excellent
    } else if score >= 7000 {
        NetworkHealth::Good
    } else if score >= 5000 {
        NetworkHealth::Fair
    } else if score >= 2500 {
        NetworkHealth::Poor
    } else {
        NetworkHealth::Bad
    }
}

/// Which measured stage is furthest over its comfort threshold: candidates
/// are the router over 50 ms, the ISP over 80 ms and DNS over 50 ms, compared
/// by the ratio of latency to threshold, later stages winning ties. The
/// result is the stage index (0 router, 1 ISP, 2 DNS) and its latency.
pub open spec fn slowest_stage(router: int, isp: int, dns: int) -> Option<(int, int)> {
    let c0: Option<(int, int)> = if router > 50 {
        Some((0, router))
    } else {
        None
    };
    let c1: Option<(int, int)> = if isp > 80 {
        match c0 {
            Some((_, l)) => if isp * 50 >= l * 80 {
                Some((1, isp))
            } else {
                c0
            },
            None => Some((1, isp)),
        }
    } else {
        c0
    };
    if dns > 50 {
        match c1 {
            Some((i, l)) => {
                let thr: int = if i == 0 {
                    50
                } else {
                    80
                };
                if dns * thr >= l * 50 {
                    Some((2, dns))
                } else {
                    c1
                }
            },
            None => Some((2, dns)),
        }
    } else {
        c1
    }
}

/// The display name of a slow stage.
pub open spec fn stage_name(i: int) -> Seq<char> {
    if i == 0 {
        "router"@
    } else if i == 1 {
        "ISP"@
    } else {
        "DNS"@
    }
}

/// The recommendation texts by verdict; the fair verdict names the slowest
/// stage when one is over its threshold.
pub open spec fn verdict_text(
    health: NetworkHealth,
    slowest: Option<(int, int)>,
    score_points: nat,
) -> Seq<char> {
    match health {
        NetworkHealth::Excellent => "🚀 Tu conexión está funcionando perfectamente. Score: "@
            + dec_digits(score_points) + "/100"@,
        NetworkHealth::Good => "✅ Tu conexión está bien. Score: "@ + dec_digits(score_points)
            + "/100"@,
        NetworkHealth::Fair => match slowest {
            Some((i, l)) => "⚠️ Conexión aceptable. "@ + stage_name(i) + " un poco lento ("@
                + dec_digits(l as nat) + "ms). Score: "@ + dec_digits(score_points) + "/100"@,
            None => "⚠️ Conexión aceptable. Score: "@ + dec_digits(score_points) + "/100"@,
        },
        NetworkHealth::Poor => "🔴 Conexión lenta. Verifica tu red. Score: "@ + dec_digits(
            score_points,
        ) + "/100"@,
        NetworkHealth::Bad => "❌ Conexión muy lenta. Contacta a tu ISP. Score: "@ + dec_digits(
            score_points,
        ) + "/100"@,
        NetworkHealth::Down => "❌ Sin conexión."@,
    }
}

fn stage_name_exec(i: u64) -> (r: &'static str)
    ensures
        r@ == stage_name(i as int),
{
    if i == 0 {
        "router"
    } else if i == 1 {
        "ISP"
    } else {
        "DNS"
    }
}

fn verdict_text_exec(health: NetworkHealth, slowest: Option<(u64, u64)>, score_points: u64) -> (r:
    String)
    ensures
        r@ == verdict_text(
            health,
            match slowest {
                Some((i, l)) => Some((i as int, l as int)),
                None => None,
            },
            score_points as nat,
        ),
{
    let points = u64_to_string(score_points);
    match health {
        NetworkHealth::Excellent => {
            let mut m = String::from_str("🚀 Tu conexión está funcionando perfectamente. Score: ");
            m.append(points.as_str());
            m.append("/100");
            m
        },
        NetworkHealth::Good => {
            let mut m = String::from_str("✅ Tu conexión está bien. Score: ");
            m.append(points.as_str());
            m.append("/100");
            m
        },
        NetworkHealth::Fair => {
            match slowest {
                Some((i, l)) => {
                    let mut m = String::from_str("⚠️ Conexión aceptable. ");
                    m.append(stage_name_exec(i));
                    m.append(" un poco lento (");
                    let lat = u64_to_string(l);
                    m.append(lat.as_str());
                    m.append("ms). Score: ");
                    m.append(points.as_str());
                    m.append("/100");
                    m
                },
                None => {
                    let mut m = String::from_str("⚠️ Conexión aceptable. Score: ");
                    m.append(points.as_str());
                    m.append("/100");
                    m
                },
            }
        },
        NetworkHealth::Poor => {
            let mut m = String::from_str("🔴 Conexión lenta. Verifica tu red. Score: ");
            m.append(points.as_str());
            m.append("/100");
            m
        },
        NetworkHealth::Bad => {
            let mut m = String::from_str("❌ Conexión muy lenta. Contacta a tu ISP. Score: ");
            m.append(points.as_str());
            m.append("/100");
            m
        },
        NetworkHealth::Down => String::from_str("❌ Sin conexión."),
    }
}

/// A report that says the check stopped before any scoring.
fn early_report(
    failure_point: FailurePoint,
    adapter_ok: bool,
    adapter_name: String,
    router_ok: bool,
    router_latency_ms: u64,
    isp_ok: bool,
    isp_latency_ms: u64,
    dns_ok: bool,
    dns_latency_ms: u64,
    recommendation: &str,
) -> (r: DiagnosticResult)
    ensures
        r.health == NetworkHealth::Down,
        r.score == 0,
        r.failure_point == failure_point,
        r.adapter_ok == adapter_ok,
        r.adapter_name == adapter_name,
        r.router_ok == router_ok,
        r.router_latency_ms == router_latency_ms,
        r.isp_ok == isp_ok,
        r.isp_latency_ms == isp_latency_ms,
        r.dns_ok == dns_ok,
        r.dns_latency_ms == dns_latency_ms,
        !r.internet_ok,
        r.internet_latency_ms == 0,
        r.recommendation@ == recommendation@,
{
    DiagnosticResult {
        health: NetworkHealth::Down,
        score: 0,
        failure_point,
        adapter_ok,
        adapter_name,
        router_ok,
        router_latency_ms,
        isp_ok,
        isp_latency_ms,
        dns_ok,
        dns_latency_ms,
        internet_ok: false,
        internet_latency_ms: 0,
        recommendation: String::from_str(recommendation),
    }
}

/// Runs the staged diagnostic over the measurements the caller took:
/// the active adapter's name if one exists; the router measurement, where the
/// outer option says whether a gateway was found at all and the inner one
/// whether it answered; and the ISP, DNS and internet latencies, `None` where
/// that stage did not answer. The check stops at the first failed stage with
/// a verdict of `Down` and an advice naming the stage; with ISP and DNS
/// answering, it grades the stages, blends them into the weighted score, and
/// recommends by the verdict. A missing gateway counts as a zero-latency
/// router, and an unreachable internet is only reflected in the score.
pub fn run_full_diagnostic(
    adapter: Option<String>,
    router: Option<Option<u64>>,
    isp_latency: Option<u64>,
    dns_latency: Option<u64>,
    internet_latency: Option<u64>,
) -> (r: DiagnosticResult)
    ensures
        match adapter {
            None => {
                &&& r.health == NetworkHealth::Down
                &&& r.score == 0
                &&& r.failure_point == FailurePoint::Adapter
                &&& !r.adapter_ok
                &&& r.recommendation@
                    == "No hay adaptador de red activo. Verifica tu conexión."@
            },
            Some(name) => {
                &&& r.adapter_ok
                &&& r.adapter_name == name
                &&& match router {
                    Some(None) => {
                        &&& r.health == NetworkHealth::Down
                        &&& r.score == 0
                        &&& r.failure_point == FailurePoint::Router
                        &&& !r.router_ok
                        &&& r.recommendation@
                            == "No se puede alcanzar el router. Verifica tu conexión local."@
                    },
                    _ => {
                        let router_lat: u64 = match router {
                            Some(Some(l)) => l,
                            _ => 0,
                        };
                        &&& r.router_ok
                        &&& r.router_latency_ms == router_lat
                        &&& match isp_latency {
                            None => {
                                &&& r.health == NetworkHealth::Down
                                &&& r.score == 0
                                &&& r.failure_point == FailurePoint::Isp
                                &&& !r.isp_ok
                                &&& r.recommendation@
                                    == "Sin conexión a internet. Contacta a tu ISP."@
                            },
                            Some(isp_lat) => {
                                &&& r.isp_ok
                                &&& r.isp_latency_ms == isp_lat
                                &&& match dns_latency {
                                    None => {
                                        &&& r.health == NetworkHealth::Down
                                        &&& r.score == 0
                                        &&& r.failure_point == FailurePoint::Dns
                                        &&& !r.dns_ok
                                        &&& r.recommendation@
                                            == "DNS no responde. Prueba cambiar a Cloudflare (1.1.1.1)."@
                                    },
                                    Some(dns_lat) => {
                                        let centi = diagnostic_score_centi(
                                            router_lat as int,
                                            isp_lat as int,
                                            dns_lat as int,
                                            internet_latency,
                                        );
                                        let points = (centi + 50) / 100;
                                        let health = health_of_centi(centi);
                                        let slowest = slowest_stage(
                                            router_lat as int,
                                            isp_lat as int,
                                            dns_lat as int,
                                        );
                                        &&& r.dns_ok
                                        &&& r.dns_latency_ms == dns_lat
                                        &&& r.internet_ok == (internet_latency is Some)
                                        &&& r.internet_latency_ms == match internet_latency {
                                            Some(l) => l,
                                            None => 0u64,
                                        }
                                        &&& r.failure_point == (if internet_latency is Some {
                                            FailurePoint::NoFault
                                        } else {
                                            FailurePoint::Internet
                                        })
                                        &&& r.score == points
                                        &&& r.health == health
                                        &&& r.recommendation@ == verdict_text(
                                            health,
                                            slowest,
                                            points as nat,
                                        )
                                    },
                                }
                            },
                        }
                    },
                }
            },
        },
{
    let name = match adapter {
        Some(name) => name,
        None => {
            return early_report(
                FailurePoint::Adapter,
                false,
                String::new(),
                false,
                0,
                false,
                0,
                false,
                0,
                "No hay adaptador de red activo. Verifica tu conexión.",
            );
        },
    };
    let router_lat: u64 = match router {
        Some(Some(l)) => l,
        Some(None) => {
            return early_report(
                FailurePoint::Router,
                true,
                name,
                false,
                0,
                false,
                0,
                false,
                0,
                "No se puede alcanzar el router. Verifica tu conexión local.",
            );
        },
        None => 0,
    };
    let isp_lat: u64 = match isp_latency {
        Some(l) => l,
        None => {
            return early_report(
                FailurePoint::Isp,
                true,
                name,
                true,
                router_lat,
                false,
                0,
                false,
                0,
                "Sin conexión a internet. Contacta a tu ISP.",
            );
        },
    };
    let dns_lat: u64 = match dns_latency {
        Some(l) => l,
        None => {
            return early_report(
                FailurePoint::Dns,
                true,
                name,
                true,
                router_lat,
                true,
                isp_lat,
                false,
                0,
                "DNS no responde. Prueba cambiar a Cloudflare (1.1.1.1).",
            );
        },
    };
    let router_score: u64 = if router_lat == 0 {
        10000
    } else {
        latency_to_score(router_lat, 5, 20, 50, 100)
    };
    let isp_score = latency_to_score(isp_lat, 20, 50, 100, 200);
    let dns_score = latency_to_score(dns_lat, 20, 40, 80, 150);
    let internet_score: u64 = match internet_latency {
        Some(l) => latency_to_score(l, 100, 200, 350, 500),
        None => 4000,
    };
    let centi = (router_score * 10 + isp_score * 15 + dns_score * 25 + internet_score * 50) / 100;
    let points = (centi + 50) / 100;
    let health = if centi >= 8500 {
        NetworkHealth::Excellent
    } else if centi >= 7000 {
        NetworkHealth::Good
    } else if centi >= 5000 {
        NetworkHealth::Fair
    } else if centi >= 2500 {
        NetworkHealth::Poor
    } else {
        NetworkHealth::Bad
    };
    let slowest = slowest_stage_exec(router_lat, isp_lat, dns_lat);
    let recommendation = verdict_text_exec(health, slowest, points);
    DiagnosticResult {
        health,
        score: points,
        failure_point: if internet_latency.is_some() {
            FailurePoint::NoFault
        } else {
            FailurePoint::Internet
        },
        adapter_ok: true,
        adapter_name: name,
        router_ok: true,
        router_latency_ms: router_lat,
        isp_ok: true,
        isp_latency_ms: isp_lat,
        dns_ok: true,
        dns_latency_ms: dns_lat,
        internet_ok: internet_latency.is_some(),
        internet_latency_ms: match internet_latency {
            Some(l) => l,
            None => 0,
        },
        recommendation,
    }
}

fn slowest_stage_exec(router: u64, isp: u64, dns: u64) -> (r: Option<(u64, u64)>)
    ensures
        match slowest_stage(router as int, isp as int, dns as int) {
            Some((i, l)) => r matches Some(p) && p.0 == i && p.1 == l,
            None => r is None,
        },
{
    let mut cur: Option<(u64, u64, u64)> = None;
    if router > 50 {
        cur = Some((0, router, 50));
    }
    if isp > 80 {
        cur = match cur {
            Some((i, l, thr)) => {
                if isp as u128 * thr as u128 >= l as u128 * 80 {
                    Some((1, isp, 80))
                } else {
                    Some((i, l, thr))
                }
            },
            None => Some((1, isp, 80)),
        };
    }
    if dns > 50 {
        cur = match cur {
            Some((i, l, thr)) => {
                if dns as u128 * thr as u128 >= l as u128 * 50 {
                    Some((2, dns, 50))
                } else {
                    Some((i, l, thr))
                }
            },
            None => Some((2, dns, 50)),
        };
    }
    match cur {
        Some((i, l, _)) => Some((i, l)),
        None => None,
    }
}

/// Summarizes a quick connectivity probe: a positive latency means the
/// internet answered, graded as fine under 50 ms and acceptable under 100 ms;
/// anything else counts as disconnected.
pub fn quick_check(latency: Option<u64>) -> (r: QuickCheckResult)
    ensures
        match latency {
            Some(l) => if l > 0 {
                &&& r.connected
                &&& r.latency_ms == l
                &&& r.message@ == (if l < 50 {
                    "Conexión OK ("@ + dec_digits(l as nat) + "ms)"@
                } else if l < 100 {
                    "Conexión aceptable ("@ + dec_digits(l as nat) + "ms)"@
                } else {
                    "Conexión lenta ("@ + dec_digits(l as nat) + "ms)"@
                })
            } else {
                &&& !r.connected
                &&& r.latency_ms == 0
                &&& r.message@ == "Sin conexión a internet"@
            },
            None => {
                &&& !r.connected
                &&& r.latency_ms == 0
                &&& r.message@ == "Sin conexión a internet"@
            },
        },
{
    match latency {
        Some(l) if l > 0 => {
            let lat = u64_to_string(l);
            let mut message = if l < 50 {
                String::from_str("Conexión OK (")
            } else if l < 100 {
                String::from_str("Conexión aceptable (")
            } else {
                String::from_str("Conexión lenta (")
            };
            message.append(lat.as_str());
            message.append("ms)");
            QuickCheckResult { connected: true, latency_ms: l, message }
        },
        _ => QuickCheckResult {
            connected: false,
            latency_ms: 0,
            message: String::from_str("Sin conexión a internet"),
        },
    }
}

} // verus!

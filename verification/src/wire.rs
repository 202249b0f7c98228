//! The line codec for the closed event set.
//!
//! `enc_event` is the canonical wire form of an event; `sp_event` parses it
//! back. The executable `encode_line` and `decode_line` are proved to match
//! them, and `lemma_decode_encode` shows that decoding a canonical line gives
//! back exactly the event it encodes.

use vstd::prelude::*;
use crate::codec::{
    enc_str, sp_str, sp_lit, sp_u64, sp_u32, sp_num, dec_digits, json_safe, wf_num,
    lemma_sp_str_len, lemma_sp_num_len, lemma_sp_lit_inv, lemma_sp_lit_fail, lemma_sp_str_inv,
    lemma_sp_u64_inv, lemma_sp_u32_inv, lemma_sp_num_inv,
};
use crate::event::{EventView, PlayerView, known_game_name};

verus! {

// ---------------------------------------------------------------------------
// Canonical encoding
// ---------------------------------------------------------------------------

pub open spec fn enc_player(p: PlayerView) -> Seq<char> {
    ",\"player\":{\"position\":{\"x\":"@ + (p.x + (",\"y\":"@ + (p.y + ("},\"surface\":"@
        + (enc_str(p.surface) + (",\"health\":"@ + (p.health + "}"@)))))))
}

pub open spec fn enc_opt_player(p: Option<PlayerView>) -> Seq<char> {
    match p {
        None => Seq::empty(),
        Some(pv) => enc_player(pv),
    }
}

pub open spec fn enc_opt_shot(sp: Option<Seq<char>>) -> Seq<char> {
    match sp {
        None => Seq::empty(),
        Some(path) => ",\"screenshot_path\":"@ + enc_str(path),
    }
}

pub open spec fn enc_pair(p: (Seq<char>, Seq<char>)) -> Seq<char> {
    enc_str(p.0) + (":"@ + p.1)
}

pub open spec fn enc_items(ps: Seq<(Seq<char>, Seq<char>)>) -> Seq<char>
    decreases ps.len(),
{
    if ps.len() == 0 {
        Seq::empty()
    } else if ps.len() == 1 {
        enc_pair(ps[0])
    } else {
        enc_pair(ps[0]) + (","@ + enc_items(ps.skip(1)))
    }
}

pub open spec fn enc_pairs(ps: Seq<(Seq<char>, Seq<char>)>) -> Seq<char> {
    "{"@ + (enc_items(ps) + "}"@)
}

pub open spec fn enc_game_head(name: Seq<char>, sid: Seq<char>, tick: u64) -> Seq<char> {
    "{\"type\":\"event\",\"event_name\":"@ + (enc_str(name) + (",\"session_id\":"@ + (enc_str(
        sid,
    ) + (",\"tick\":"@ + dec_digits(tick as nat)))))
}

/// The canonical line of an event, without the trailing newline.
pub open spec fn enc_event(e: EventView) -> Seq<char> {
    match e {
        EventView::SessionInit { session_id, tick, level_name } =>
            "{\"type\":\"session_init\",\"session_id\":"@ + (enc_str(session_id) + (",\"tick\":"@
                + (dec_digits(tick as nat) + (",\"level_name\":"@ + (enc_str(level_name)
                + "}"@))))),
        EventView::Stats {
            session_id,
            cycle,
            tick,
            player,
            screenshot_path,
            production,
            consumption,
        } => "{\"type\":\"stats\",\"session_id\":"@ + (enc_str(session_id) + (",\"cycle\":"@
            + (dec_digits(cycle as nat) + (",\"tick\":"@ + (dec_digits(tick as nat)
            + (enc_opt_player(player) + (enc_opt_shot(screenshot_path) + (
        ",\"products_production\":"@ + (enc_pairs(production) + (
        ",\"materials_consumption\":"@ + (enc_pairs(consumption) + "}"@))))))))))),
        EventView::ResearchStarted { session_id, tick, tech_name, tech_level } => enc_game_head(
            "on_research_started"@,
            session_id,
            tick,
        ) + (",\"tech_name\":"@ + (enc_str(tech_name) + (",\"tech_level\":"@ + (dec_digits(
            tech_level as nat,
        ) + "}"@)))),
        EventView::ResearchFinished { session_id, tick, tech_name, tech_level } => enc_game_head(
            "on_research_finished"@,
            session_id,
            tick,
        ) + (",\"tech_name\":"@ + (enc_str(tech_name) + (",\"tech_level\":"@ + (dec_digits(
            tech_level as nat,
        ) + "}"@)))),
        EventView::EntityBuilt { session_id, tick, player_index, entity, x, y, surface } =>
            enc_game_head("on_built_entity"@, session_id, tick) + enc_entity_tail(
                player_index,
                entity,
                x,
                y,
                surface,
            ),
        EventView::EntityMined { session_id, tick, player_index, entity, x, y, surface } =>
            enc_game_head("on_player_mined_entity"@, session_id, tick) + enc_entity_tail(
                player_index,
                entity,
                x,
                y,
                surface,
            ),
        EventView::ItemCrafted { session_id, tick, player_index, item, count } => enc_game_head(
            "on_player_crafted_item"@,
            session_id,
            tick,
        ) + (",\"player_index\":"@ + (dec_digits(player_index as nat) + (",\"item\":"@ + (enc_str(
            item,
        ) + (",\"count\":"@ + (dec_digits(count as nat) + "}"@)))))),
        EventView::OtherGame { event_name, session_id, tick } => enc_game_head(
            event_name,
            session_id,
            tick,
        ) + "}"@,
    }
}

pub open spec fn enc_entity_tail(
    player_index: u32,
    entity: Seq<char>,
    x: Seq<char>,
    y: Seq<char>,
    surface: Seq<char>,
) -> Seq<char> {
    ",\"player_index\":"@ + (dec_digits(player_index as nat) + (",\"entity\":"@ + (enc_str(entity)
        + (",\"position\":{\"x\":"@ + (x + (",\"y\":"@ + (y + ("},\"surface\":"@ + (enc_str(
        surface,
    ) + "}"@)))))))))
}

// ---------------------------------------------------------------------------
// Parsing
// ---------------------------------------------------------------------------

pub open spec fn sp_key_str(s: Seq<char>, key: Seq<char>) -> Option<(Seq<char>, Seq<char>)> {
    match sp_lit(s, key) {
        None => None,
        Some(r) => sp_str(r),
    }
}

pub open spec fn sp_key_u64(s: Seq<char>, key: Seq<char>) -> Option<(u64, Seq<char>)> {
    match sp_lit(s, key) {
        None => None,
        Some(r) => sp_u64(r),
    }
}

pub open spec fn sp_key_u32(s: Seq<char>, key: Seq<char>) -> Option<(u32, Seq<char>)> {
    match sp_lit(s, key) {
        None => None,
        Some(r) => sp_u32(r),
    }
}

pub open spec fn sp_key_num(s: Seq<char>, key: Seq<char>) -> Option<(Seq<char>, Seq<char>)> {
    match sp_lit(s, key) {
        None => None,
        Some(r) => sp_num(r),
    }
}

/// Fields of a session-init line, after its fixed head.
pub open spec fn sp_init(s: Seq<char>) -> Option<(EventView, Seq<char>)> {
    match sp_str(s) {
        None => None,
        Some((sid, s1)) => match sp_key_u64(s1, ",\"tick\":"@) {
            None => None,
            Some((tick, s2)) => match sp_key_str(s2, ",\"level_name\":"@) {
                None => None,
                Some((level, s3)) => match sp_lit(s3, "}"@) {
                    None => None,
                    Some(s4) => Some(
                        (
                            EventView::SessionInit {
                                session_id: sid,
                                tick: tick,
                                level_name: level,
                            },
                            s4,
                        ),
                    ),
                },
            },
        },
    }
}

/// A player object, after the opening literal of the `player` field.
pub open spec fn sp_player(s: Seq<char>) -> Option<(PlayerView, Seq<char>)> {
    match sp_num(s) {
        None => None,
        Some((x, s1)) => match sp_key_num(s1, ",\"y\":"@) {
            None => None,
            Some((y, s2)) => match sp_key_str(s2, "},\"surface\":"@) {
                None => None,
                Some((surface, s3)) => match sp_key_num(s3, ",\"health\":"@) {
                    None => None,
                    Some((health, s4)) => match sp_lit(s4, "}"@) {
                        None => None,
                        Some(s5) => Some((PlayerView { x, y, surface, health }, s5)),
                    },
                },
            },
        },
    }
}

pub open spec fn sp_opt_player(s: Seq<char>) -> Option<(Option<PlayerView>, Seq<char>)> {
    match sp_lit(s, ",\"player\":{\"position\":{\"x\":"@) {
        None => Some((None, s)),
        Some(r) => match sp_player(r) {
            None => None,
            Some((p, r2)) => Some((Some(p), r2)),
        },
    }
}

pub open spec fn sp_opt_shot(s: Seq<char>) -> Option<(Option<Seq<char>>, Seq<char>)> {
    match sp_lit(s, ",\"screenshot_path\":"@) {
        None => Some((None, s)),
        Some(r) => match sp_str(r) {
            None => None,
            Some((p, r2)) => Some((Some(p), r2)),
        },
    }
}

/// One or more `"name":value` pairs and the closing brace.
pub open spec fn sp_pairs_items(s: Seq<char>) -> Option<(Seq<(Seq<char>, Seq<char>)>, Seq<char>)>
    decreases s.len(),
    via sp_pairs_items_dec
{
    match sp_str(s) {
        None => None,
        Some((k, r1)) => match sp_lit(r1, ":"@) {
            None => None,
            Some(r2) => match sp_num(r2) {
                None => None,
                Some((v, r3)) => if r3.len() > 0 && r3[0] == ',' {
                    match sp_pairs_items(r3.skip(1)) {
                        None => None,
                        Some((ps, r4)) => Some((seq![(k, v)] + ps, r4)),
                    }
                } else if r3.len() > 0 && r3[0] == '}' {
                    Some((seq![(k, v)], r3.skip(1)))
                } else {
                    None
                },
            },
        },
    }
}

#[via_fn]
proof fn sp_pairs_items_dec(s: Seq<char>) {
    if sp_str(s) is Some {
        lemma_sp_str_len(s);
        let r1 = sp_str(s)->Some_0.1;
        if sp_lit(r1, ":"@) is Some {
            let r2 = sp_lit(r1, ":"@)->Some_0;
            if sp_num(r2) is Some {
                lemma_sp_num_len(r2);
            }
        }
    }
}

/// A brace-delimited object of name/numeric-text pairs.
pub open spec fn sp_pairs(s: Seq<char>) -> Option<(Seq<(Seq<char>, Seq<char>)>, Seq<char>)> {
    if s.len() >= 2 && s[0] == '{' && s[1] == '}' {
        Some((Seq::empty(), s.skip(2)))
    } else {
        match sp_lit(s, "{"@) {
            None => None,
            Some(r) => sp_pairs_items(r),
        }
    }
}

/// The two metric objects closing a stats line.
pub open spec fn sp_stats_tail(s: Seq<char>) -> Option<
    ((Seq<(Seq<char>, Seq<char>)>, Seq<(Seq<char>, Seq<char>)>), Seq<char>),
> {
    match sp_lit(s, ",\"products_production\":"@) {
        None => None,
        Some(s6) => match sp_pairs(s6) {
            None => None,
            Some((production, s7)) => match sp_lit(s7, ",\"materials_consumption\":"@) {
                None => None,
                Some(s8) => match sp_pairs(s8) {
                    None => None,
                    Some((consumption, s9)) => match sp_lit(s9, "}"@) {
                        None => None,
                        Some(s10) => Some(((production, consumption), s10)),
                    },
                },
            },
        },
    }
}

/// Fields of a stats line, after its fixed head.
pub open spec fn sp_stats(s: Seq<char>) -> Option<(EventView, Seq<char>)> {
    match sp_str(s) {
        None => None,
        Some((sid, s1)) => match sp_key_u64(s1, ",\"cycle\":"@) {
            None => None,
            Some((cycle, s2)) => match sp_key_u64(s2, ",\"tick\":"@) {
                None => None,
                Some((tick, s3)) => match sp_opt_player(s3) {
                    None => None,
                    Some((player, s4)) => match sp_opt_shot(s4) {
                        None => None,
                        Some((shot, s5)) => match sp_stats_tail(s5) {
                            None => None,
                            Some(((production, consumption), s10)) => Some(
                                (
                                    EventView::Stats {
                                        session_id: sid,
                                        cycle,
                                        tick,
                                        player,
                                        screenshot_path: shot,
                                        production,
                                        consumption,
                                    },
                                    s10,
                                ),
                            ),
                        },
                    },
                },
            },
        },
    }
}

/// Research fields shared by the started and finished variants.
pub open spec fn sp_research(s: Seq<char>) -> Option<((Seq<char>, u32), Seq<char>)> {
    match sp_key_str(s, ",\"tech_name\":"@) {
        None => None,
        Some((tech_name, s1)) => match sp_key_u32(s1, ",\"tech_level\":"@) {
            None => None,
            Some((tech_level, s2)) => match sp_lit(s2, "}"@) {
                None => None,
                Some(s3) => Some(((tech_name, tech_level), s3)),
            },
        },
    }
}

/// Entity fields shared by the built and mined variants.
pub open spec fn sp_entity(s: Seq<char>) -> Option<
    ((u32, Seq<char>, Seq<char>, Seq<char>, Seq<char>), Seq<char>),
> {
    match sp_key_u32(s, ",\"player_index\":"@) {
        None => None,
        Some((player_index, s1)) => match sp_key_str(s1, ",\"entity\":"@) {
            None => None,
            Some((entity, s2)) => match sp_key_num(s2, ",\"position\":{\"x\":"@) {
                None => None,
                Some((x, s3)) => match sp_key_num(s3, ",\"y\":"@) {
                    None => None,
                    Some((y, s4)) => match sp_key_str(s4, "},\"surface\":"@) {
                        None => None,
                        Some((surface, s5)) => match sp_lit(s5, "}"@) {
                            None => None,
                            Some(s6) => Some(((player_index, entity, x, y, surface), s6)),
                        },
                    },
                },
            },
        },
    }
}

/// Crafted-item fields.
pub open spec fn sp_crafted(s: Seq<char>) -> Option<((u32, Seq<char>, u32), Seq<char>)> {
    match sp_key_u32(s, ",\"player_index\":"@) {
        None => None,
        Some((player_index, s1)) => match sp_key_str(s1, ",\"item\":"@) {
            None => None,
            Some((item, s2)) => match sp_key_u32(s2, ",\"count\":"@) {
                None => None,
                Some((count, s3)) => match sp_lit(s3, "}"@) {
                    None => None,
                    Some(s4) => Some(((player_index, item, count), s4)),
                },
            },
        },
    }
}

/// The variant-specific tail of a game event, chosen by its name.
pub open spec fn sp_game_tail(name: Seq<char>, sid: Seq<char>, tick: u64, s: Seq<char>) -> Option<
    (EventView, Seq<char>),
> {
    if name == "on_research_started"@ {
        match sp_research(s) {
            None => None,
            Some(((tech_name, tech_level), r)) => Some(
                (
                    EventView::ResearchStarted { session_id: sid, tick, tech_name, tech_level },
                    r,
                ),
            ),
        }
    } else if name == "on_research_finished"@ {
        match sp_research(s) {
            None => None,
            Some(((tech_name, tech_level), r)) => Some(
                (
                    EventView::ResearchFinished { session_id: sid, tick, tech_name, tech_level },
                    r,
                ),
            ),
        }
    } else if name == "on_built_entity"@ {
        match sp_entity(s) {
            None => None,
            Some(((player_index, entity, x, y, surface), r)) => Some(
                (
                    EventView::EntityBuilt {
                        session_id: sid,
                        tick,
                        player_index,
                        entity,
                        x,
                        y,
                        surface,
                    },
                    r,
                ),
            ),
        }
    } else if name == "on_player_mined_entity"@ {
        match sp_entity(s) {
            None => None,
            Some(((player_index, entity, x, y, surface), r)) => Some(
                (
                    EventView::EntityMined {
                        session_id: sid,
                        tick,
                        player_index,
                        entity,
                        x,
                        y,
                        surface,
                    },
                    r,
                ),
            ),
        }
    } else if name == "on_player_crafted_item"@ {
        match sp_crafted(s) {
            None => None,
            Some(((player_index, item, count), r)) => Some(
                (
                    EventView::ItemCrafted { session_id: sid, tick, player_index, item, count },
                    r,
                ),
            ),
        }
    } else {
        match sp_lit(s, "}"@) {
            None => None,
            Some(r) => Some(
                (EventView::OtherGame { event_name: name, session_id: sid, tick }, r),
            ),
        }
    }
}

/// Fields of a game-event line, after its fixed head.
pub open spec fn sp_game(s: Seq<char>) -> Option<(EventView, Seq<char>)> {
    match sp_str(s) {
        None => None,
        Some((name, s1)) => match sp_key_str(s1, ",\"session_id\":"@) {
            None => None,
            Some((sid, s2)) => match sp_key_u64(s2, ",\"tick\":"@) {
                None => None,
                Some((tick, s3)) => sp_game_tail(name, sid, tick, s3),
            },
        },
    }
}

/// Parse one event line, distinguished by its fixed head.
pub open spec fn sp_event(s: Seq<char>) -> Option<(EventView, Seq<char>)> {
    if sp_lit(s, "{\"type\":\"session_init\",\"session_id\":"@) is Some {
        sp_init(sp_lit(s, "{\"type\":\"session_init\",\"session_id\":"@)->Some_0)
    } else if sp_lit(s, "{\"type\":\"stats\",\"session_id\":"@) is Some {
        sp_stats(sp_lit(s, "{\"type\":\"stats\",\"session_id\":"@)->Some_0)
    } else if sp_lit(s, "{\"type\":\"event\",\"event_name\":"@) is Some {
        sp_game(sp_lit(s, "{\"type\":\"event\",\"event_name\":"@)->Some_0)
    } else {
        None
    }
}

/// Decode a whole line: one event and nothing after it.
pub open spec fn dec_line(s: Seq<char>) -> Option<EventView> {
    match sp_event(s) {
        None => None,
        Some((v, rest)) => if rest.len() == 0 {
            Some(v)
        } else {
            None
        },
    }
}

// ---------------------------------------------------------------------------
// Inversion: parsing a canonical encoding recovers the encoded value
// ---------------------------------------------------------------------------

proof fn lemma_key_str_inv(b: Seq<char>, key: Seq<char>, rest: Seq<char>)
        ensures
        sp_key_str(key + (enc_str(b) + rest), key) == Some((b, rest)),
{
    lemma_sp_lit_inv(key, enc_str(b) + rest);
    lemma_sp_str_inv(b, rest);
}

proof fn lemma_key_u64_inv(n: u64, key: Seq<char>, rest: Seq<char>)
    requires
        rest.len() == 0 || !crate::codec::is_digit(rest[0]),
    ensures
        sp_key_u64(key + (dec_digits(n as nat) + rest), key) == Some((n, rest)),
{
    lemma_sp_lit_inv(key, dec_digits(n as nat) + rest);
    lemma_sp_u64_inv(n, rest);
}

proof fn lemma_key_u32_inv(n: u32, key: Seq<char>, rest: Seq<char>)
    requires
        rest.len() == 0 || !crate::codec::is_digit(rest[0]),
    ensures
        sp_key_u32(key + (dec_digits(n as nat) + rest), key) == Some((n, rest)),
{
    lemma_sp_lit_inv(key, dec_digits(n as nat) + rest);
    lemma_sp_u32_inv(n, rest);
}

proof fn lemma_key_num_inv(t: Seq<char>, key: Seq<char>, rest: Seq<char>)
    requires
        wf_num(t),
        rest.len() == 0 || !crate::codec::is_num_char(rest[0]),
    ensures
        sp_key_num(key + (t + rest), key) == Some((t, rest)),
{
    lemma_sp_lit_inv(key, t + rest);
    lemma_sp_num_inv(t, rest);
}

proof fn lemma_items_inv(ps: Seq<(Seq<char>, Seq<char>)>, rest: Seq<char>)
    requires
        crate::event::wf_pairs(ps),
        ps.len() > 0,
    ensures
        sp_pairs_items(enc_items(ps) + ("}"@ + rest)) == Some((ps, rest)),
    decreases ps.len(),
{
    reveal_strlit("}");
    reveal_strlit(":");
    reveal_strlit(",");
    let k = ps[0].0;
    let v = ps[0].1;
    assert(wf_num(v));
    if ps.len() == 1 {
        let s = enc_items(ps) + ("}"@ + rest);
        assert(s =~= enc_str(k) + (":"@ + (v + ("}"@ + rest))));
        lemma_sp_str_inv(k, ":"@ + (v + ("}"@ + rest)));
        lemma_sp_lit_inv(":"@, v + ("}"@ + rest));
        assert(("}"@ + rest)[0] == '}');
        lemma_sp_num_inv(v, "}"@ + rest);
        let r3 = "}"@ + rest;
        assert(r3.len() > 0 && r3[0] == '}');
        assert(r3[0] != ',');
        assert(r3.skip(1) =~= rest);
        assert(seq![(k, v)] =~= ps);
    } else {
        let tail = enc_items(ps.skip(1)) + ("}"@ + rest);
        let s = enc_items(ps) + ("}"@ + rest);
        assert(s =~= enc_str(k) + (":"@ + (v + (","@ + tail))));
        lemma_sp_str_inv(k, ":"@ + (v + (","@ + tail)));
        lemma_sp_lit_inv(":"@, v + (","@ + tail));
        assert((","@ + tail)[0] == ',');
        lemma_sp_num_inv(v, ","@ + tail);
        let r3 = ","@ + tail;
        assert(r3.len() > 0 && r3[0] == ',');
        assert(r3.skip(1) =~= tail);
        assert(crate::event::wf_pairs(ps.skip(1)));
        lemma_items_inv(ps.skip(1), rest);
        assert(seq![(k, v)] + ps.skip(1) =~= ps);
    }
}

proof fn lemma_pairs_inv(ps: Seq<(Seq<char>, Seq<char>)>, rest: Seq<char>)
    requires
        crate::event::wf_pairs(ps),
    ensures
        sp_pairs(enc_pairs(ps) + rest) == Some((ps, rest)),
{
    reveal_strlit("{");
    reveal_strlit("}");
    let s = enc_pairs(ps) + rest;
    if ps.len() == 0 {
        assert(s =~= "{"@ + ("}"@ + rest));
        assert(s[0] == '{' && s[1] == '}');
        assert(s.skip(2) =~= rest);
    } else {
        let inner = enc_items(ps) + ("}"@ + rest);
        assert(s =~= "{"@ + inner);
        assert(enc_items(ps)[0] == '"');
        assert(s[1] == '"');
        assert(s[0] == '{');
        lemma_sp_lit_inv("{"@, inner);
        lemma_items_inv(ps, rest);
    }
}

proof fn lemma_player_inv(p: PlayerView, rest: Seq<char>)
    requires
        crate::event::wf_player(p),
        rest.len() > 0,
        !crate::codec::is_num_char(rest[0]),
    ensures
        sp_opt_player(enc_player(p) + rest) == Some((Some(p), rest)),
{
    reveal_strlit(",\"player\":{\"position\":{\"x\":");
    reveal_strlit(",\"y\":");
    reveal_strlit("},\"surface\":");
    reveal_strlit(",\"health\":");
    reveal_strlit("}");
    let lit = ",\"player\":{\"position\":{\"x\":"@;
    let s = enc_player(p) + rest;
    let t1 = p.x + (",\"y\":"@ + (p.y + ("},\"surface\":"@ + (enc_str(p.surface) + (",\"health\":"@
        + (p.health + ("}"@ + rest)))))));
    assert(s =~= lit + t1);
    lemma_sp_lit_inv(lit, t1);
    assert((",\"y\":"@ + (p.y + ("},\"surface\":"@ + (enc_str(p.surface) + (",\"health\":"@
        + (p.health + ("}"@ + rest)))))))[0] == ',');
    lemma_sp_num_inv(p.x, ",\"y\":"@ + (p.y + ("},\"surface\":"@ + (enc_str(p.surface) + (
    ",\"health\":"@ + (p.health + ("}"@ + rest)))))));
    assert(("},\"surface\":"@ + (enc_str(p.surface) + (",\"health\":"@ + (p.health + ("}"@
        + rest)))))[0] == '}');
    lemma_key_num_inv(p.y, ",\"y\":"@, "},\"surface\":"@ + (enc_str(p.surface) + (",\"health\":"@
        + (p.health + ("}"@ + rest)))));
    lemma_key_str_inv(p.surface, "},\"surface\":"@, ",\"health\":"@ + (p.health + ("}"@ + rest)));
    assert(("}"@ + rest)[0] == '}');
    lemma_key_num_inv(p.health, ",\"health\":"@, "}"@ + rest);
    lemma_sp_lit_inv("}"@, rest);
}

proof fn lemma_opt_player_none(s: Seq<char>)
    requires
        sp_lit(s, ",\"player\":{\"position\":{\"x\":"@) is None,
    ensures
        sp_opt_player(s) == Some((None::<PlayerView>, s)),
{
}

proof fn lemma_opt_shot_some(path: Seq<char>, rest: Seq<char>)
        ensures
        sp_opt_shot(",\"screenshot_path\":"@ + (enc_str(path) + rest)) == Some(
            (Some(path), rest),
        ),
{
    lemma_sp_lit_inv(",\"screenshot_path\":"@, enc_str(path) + rest);
    lemma_sp_str_inv(path, rest);
}

proof fn lemma_dec_init(sid: Seq<char>, tick: u64, level: Seq<char>)
        ensures
        sp_event(enc_event(EventView::SessionInit { session_id: sid, tick, level_name: level }))
            == Some(
            (
                EventView::SessionInit { session_id: sid, tick, level_name: level },
                Seq::<char>::empty(),
            ),
        ),
{
    reveal_strlit(",\"tick\":");
    reveal_strlit(",\"level_name\":");
    reveal_strlit("}");
    let v = EventView::SessionInit { session_id: sid, tick, level_name: level };
    let e = enc_event(v);
    let t3 = ",\"level_name\":"@ + (enc_str(level) + "}"@);
    let t2 = ",\"tick\":"@ + (dec_digits(tick as nat) + t3);
    let t1 = enc_str(sid) + t2;
    assert(e =~= "{\"type\":\"session_init\",\"session_id\":"@ + t1);
    lemma_sp_lit_inv("{\"type\":\"session_init\",\"session_id\":"@, t1);
    lemma_sp_str_inv(sid, t2);
    assert(t3[0] == ',');
    lemma_key_u64_inv(tick, ",\"tick\":"@, t3);
    lemma_key_str_inv(level, ",\"level_name\":"@, "}"@);
    assert("}"@ + Seq::<char>::empty() =~= "}"@);
    lemma_sp_lit_inv("}"@, Seq::<char>::empty());
}

/// Leading characters of the literals that open the optional and the
/// required stats fields, used to tell them apart.
proof fn lemma_stats_lit_chars()
    ensures
        ",\"player\":{\"position\":{\"x\":"@[0] == ',' && ",\"player\":{\"position\":{\"x\":"@[2]
            == 'p' && ",\"player\":{\"position\":{\"x\":"@[3] == 'l'
            && ",\"player\":{\"position\":{\"x\":"@.len() > 3,
        ",\"screenshot_path\":"@[0] == ',' && ",\"screenshot_path\":"@[1] == '"'
            && ",\"screenshot_path\":"@[2] == 's' && ",\"screenshot_path\":"@.len() > 2,
        ",\"products_production\":"@[0] == ',' && ",\"products_production\":"@[1] == '"'
            && ",\"products_production\":"@[2] == 'p' && ",\"products_production\":"@[3] == 'r'
            && ",\"products_production\":"@.len() > 3,
{
    reveal_strlit(",\"player\":{\"position\":{\"x\":");
    reveal_strlit(",\"screenshot_path\":");
    reveal_strlit(",\"products_production\":");
}

/// The optional player and screenshot fields parse back to what was encoded,
/// given that what follows them opens with the products literal.
proof fn lemma_stats_opts(
    player: Option<PlayerView>,
    shot: Option<Seq<char>>,
    t4: Seq<char>,
)
    requires
        match player {
            Some(p) => crate::event::wf_player(p),
            None => true,
        },
        t4.len() > 3,
        t4[0] == ',' && t4[1] == '"' && t4[2] == 'p' && t4[3] == 'r',
    ensures
        sp_opt_player(enc_opt_player(player) + (enc_opt_shot(shot) + t4)) == Some(
            (player, enc_opt_shot(shot) + t4),
        ),
        sp_opt_shot(enc_opt_shot(shot) + t4) == Some((shot, t4)),
        (enc_opt_player(player) + (enc_opt_shot(shot) + t4)).len() > 0,
        (enc_opt_player(player) + (enc_opt_shot(shot) + t4))[0] == ',',
{
    lemma_stats_lit_chars();
    let lit_player = ",\"player\":{\"position\":{\"x\":"@;
    let lit_shot = ",\"screenshot_path\":"@;
    let shot_part = enc_opt_shot(shot) + t4;
    match shot {
        Some(path) => {
            assert(shot_part =~= lit_shot + (enc_str(path) + t4));
            assert(shot_part[0] == ',' && shot_part[2] == 's');
            lemma_opt_shot_some(path, t4);
        },
        None => {
            assert(shot_part =~= t4);
            assert(shot_part[2] == 'p' && lit_shot[2] == 's');
            lemma_sp_lit_fail(shot_part, lit_shot, 2);
        },
    }
    match player {
        Some(p) => {
            assert(enc_opt_player(player) + shot_part =~= enc_player(p) + shot_part);
            assert(shot_part.len() > 0 && shot_part[0] == ',');
            lemma_player_inv(p, shot_part);
            assert(enc_opt_player(player) + (enc_opt_shot(shot) + t4) =~= enc_player(p)
                + shot_part);
            assert((enc_player(p) + shot_part)[0] == lit_player[0]);
        },
        None => {
            assert(enc_opt_player(player) + shot_part =~= shot_part);
            match shot {
                Some(path) => {
                    assert(shot_part[2] == 's' && lit_player[2] == 'p');
                    lemma_sp_lit_fail(shot_part, lit_player, 2);
                },
                None => {
                    assert(shot_part[3] == 'r' && lit_player[3] == 'l');
                    lemma_sp_lit_fail(shot_part, lit_player, 3);
                },
            }
            lemma_opt_player_none(shot_part);
            assert(enc_opt_player(player) + (enc_opt_shot(shot) + t4) =~= shot_part);
        },
    }
}

/// The two metric objects and the closing brace parse back to what was
/// encoded.
proof fn lemma_stats_pairs_tail(
    prod: Seq<(Seq<char>, Seq<char>)>,
    cons: Seq<(Seq<char>, Seq<char>)>,
)
    requires
        crate::event::wf_pairs(prod),
        crate::event::wf_pairs(cons),
    ensures
        sp_stats_tail(
            ",\"products_production\":"@ + (enc_pairs(prod) + (",\"materials_consumption\":"@
                + (enc_pairs(cons) + "}"@))),
        ) == Some(((prod, cons), Seq::<char>::empty())),
{
    let lit_prod = ",\"products_production\":"@;
    let lit_mat = ",\"materials_consumption\":"@;
    let t7 = enc_pairs(cons) + "}"@;
    let t6 = lit_mat + t7;
    let t5 = enc_pairs(prod) + t6;
    lemma_sp_lit_inv(lit_prod, t5);
    lemma_pairs_inv(prod, t6);
    lemma_sp_lit_inv(lit_mat, t7);
    lemma_pairs_inv(cons, "}"@);
    assert("}"@ + Seq::<char>::empty() =~= "}"@);
    lemma_sp_lit_inv("}"@, Seq::<char>::empty());
}

/// A line opening with the stats head parses as a stats line.
proof fn lemma_stats_head(t0: Seq<char>)
    ensures
        sp_event("{\"type\":\"stats\",\"session_id\":"@ + t0) == sp_stats(t0),
{
    reveal_strlit("{\"type\":\"session_init\",\"session_id\":");
    reveal_strlit("{\"type\":\"stats\",\"session_id\":");
    let lit_init = "{\"type\":\"session_init\",\"session_id\":"@;
    let lit_stats = "{\"type\":\"stats\",\"session_id\":"@;
    let e = lit_stats + t0;
    assert(e[10] == lit_stats[10]);
    assert(lit_stats[10] == 't' && lit_init[10] == 'e');
    lemma_sp_lit_fail(e, lit_init, 10);
    lemma_sp_lit_inv(lit_stats, t0);
}

#[verifier::rlimit(80)]
#[verifier::spinoff_prover]
proof fn lemma_stats_fields(
    sid: Seq<char>,
    cycle: u64,
    tick: u64,
    player: Option<PlayerView>,
    shot: Option<Seq<char>>,
    prod: Seq<(Seq<char>, Seq<char>)>,
    cons: Seq<(Seq<char>, Seq<char>)>,
)
    requires
        match player {
            Some(p) => crate::event::wf_player(p),
            None => true,
        },
        crate::event::wf_pairs(prod),
        crate::event::wf_pairs(cons),
    ensures
        sp_stats(
            enc_str(sid) + (",\"cycle\":"@ + (dec_digits(cycle as nat) + (",\"tick\":"@
                + (dec_digits(tick as nat) + (enc_opt_player(player) + (enc_opt_shot(shot) + (
            ",\"products_production\":"@ + (enc_pairs(prod) + (",\"materials_consumption\":"@
                + (enc_pairs(cons) + "}"@)))))))))),
        ) == Some(
            (
                EventView::Stats {
                    session_id: sid,
                    cycle,
                    tick,
                    player,
                    screenshot_path: shot,
                    production: prod,
                    consumption: cons,
                },
                Seq::<char>::empty(),
            ),
        ),
{
    reveal_strlit(",\"cycle\":");
    reveal_strlit(",\"tick\":");
    lemma_stats_lit_chars();
    let t4 = ",\"products_production\":"@ + (enc_pairs(prod) + (",\"materials_consumption\":"@
        + (enc_pairs(cons) + "}"@)));
    let shot_part = enc_opt_shot(shot) + t4;
    let after_tick = enc_opt_player(player) + shot_part;
    let t2 = ",\"tick\":"@ + (dec_digits(tick as nat) + after_tick);
    let t1 = ",\"cycle\":"@ + (dec_digits(cycle as nat) + t2);
    assert(t4[0] == ',' && t4[1] == '"' && t4[2] == 'p' && t4[3] == 'r');
    lemma_stats_opts(player, shot, t4);
    lemma_sp_str_inv(sid, t1);
    assert(t2[0] == ',');
    lemma_key_u64_inv(cycle, ",\"cycle\":"@, t2);
    assert(after_tick[0] == ',');
    lemma_key_u64_inv(tick, ",\"tick\":"@, after_tick);
    lemma_stats_pairs_tail(prod, cons);
}

#[verifier::rlimit(100)]
#[verifier::spinoff_prover]
proof fn lemma_dec_stats(
    sid: Seq<char>,
    cycle: u64,
    tick: u64,
    player: Option<PlayerView>,
    shot: Option<Seq<char>>,
    prod: Seq<(Seq<char>, Seq<char>)>,
    cons: Seq<(Seq<char>, Seq<char>)>,
)
    requires
        match player {
            Some(p) => crate::event::wf_player(p),
            None => true,
        },
        crate::event::wf_pairs(prod),
        crate::event::wf_pairs(cons),
    ensures
        sp_event(
            enc_event(
                EventView::Stats {
                    session_id: sid,
                    cycle,
                    tick,
                    player,
                    screenshot_path: shot,
                    production: prod,
                    consumption: cons,
                },
            ),
        ) == Some(
            (
                EventView::Stats {
                    session_id: sid,
                    cycle,
                    tick,
                    player,
                    screenshot_path: shot,
                    production: prod,
                    consumption: cons,
                },
                Seq::<char>::empty(),
            ),
        ),
{
    let v = EventView::Stats {
        session_id: sid,
        cycle,
        tick,
        player,
        screenshot_path: shot,
        production: prod,
        consumption: cons,
    };
    let t0 = enc_str(sid) + (",\"cycle\":"@ + (dec_digits(cycle as nat) + (",\"tick\":"@
        + (dec_digits(tick as nat) + (enc_opt_player(player) + (enc_opt_shot(shot) + (
    ",\"products_production\":"@ + (enc_pairs(prod) + (",\"materials_consumption\":"@
        + (enc_pairs(cons) + "}"@))))))))));
    assert(enc_event(v) =~= "{\"type\":\"stats\",\"session_id\":"@ + t0);
    lemma_stats_head(t0);
    lemma_stats_fields(sid, cycle, tick, player, shot, prod, cons);
}

/// After the fixed game head, parsing continues with the name-specific tail.
proof fn lemma_game_head(name: Seq<char>, sid: Seq<char>, tick: u64, tail: Seq<char>)
    requires
        tail.len() > 0,
        !crate::codec::is_digit(tail[0]),
    ensures
        sp_event(enc_game_head(name, sid, tick) + tail) == sp_game_tail(name, sid, tick, tail),
{
    reveal_strlit("{\"type\":\"session_init\",\"session_id\":");
    reveal_strlit("{\"type\":\"stats\",\"session_id\":");
    reveal_strlit("{\"type\":\"event\",\"event_name\":");
    reveal_strlit(",\"session_id\":");
    reveal_strlit(",\"tick\":");
    let lit_init = "{\"type\":\"session_init\",\"session_id\":"@;
    let lit_stats = "{\"type\":\"stats\",\"session_id\":"@;
    let lit_event = "{\"type\":\"event\",\"event_name\":"@;
    let e = enc_game_head(name, sid, tick) + tail;
    let t2 = ",\"tick\":"@ + (dec_digits(tick as nat) + tail);
    let t1 = ",\"session_id\":"@ + (enc_str(sid) + t2);
    let t0 = enc_str(name) + t1;
    assert(e =~= lit_event + t0);
    assert(e[9] == lit_event[9]);
    assert(lit_event[9] == 'e' && lit_init[9] == 's' && lit_stats[9] == 's');
    lemma_sp_lit_fail(e, lit_init, 9);
    lemma_sp_lit_fail(e, lit_stats, 9);
    lemma_sp_lit_inv(lit_event, t0);
    lemma_sp_str_inv(name, t1);
    lemma_key_str_inv(sid, ",\"session_id\":"@, t2);
    lemma_key_u64_inv(tick, ",\"tick\":"@, tail);
}

proof fn lemma_dec_research(sid: Seq<char>, tick: u64, tn: Seq<char>, lvl: u32, started: bool)
        ensures
        started ==> sp_event(
            enc_event(
                EventView::ResearchStarted {
                    session_id: sid,
                    tick,
                    tech_name: tn,
                    tech_level: lvl,
                },
            ),
        ) == Some(
            (
                EventView::ResearchStarted { session_id: sid, tick, tech_name: tn, tech_level: lvl },
                Seq::<char>::empty(),
            ),
        ),
        !started ==> sp_event(
            enc_event(
                EventView::ResearchFinished {
                    session_id: sid,
                    tick,
                    tech_name: tn,
                    tech_level: lvl,
                },
            ),
        ) == Some(
            (
                EventView::ResearchFinished {
                    session_id: sid,
                    tick,
                    tech_name: tn,
                    tech_level: lvl,
                },
                Seq::<char>::empty(),
            ),
        ),
{
    reveal_strlit(",\"tech_name\":");
    reveal_strlit(",\"tech_level\":");
    reveal_strlit("}");
    lemma_name_facts();
    let name = if started { "on_research_started"@ } else { "on_research_finished"@ };
    let tail = ",\"tech_name\":"@ + (enc_str(tn) + (",\"tech_level\":"@ + (dec_digits(lvl as nat)
        + "}"@)));
    assert(tail[0] == ',');
    let e = if started {
        enc_event(
            EventView::ResearchStarted { session_id: sid, tick, tech_name: tn, tech_level: lvl },
        )
    } else {
        enc_event(
            EventView::ResearchFinished { session_id: sid, tick, tech_name: tn, tech_level: lvl },
        )
    };
    assert(e =~= enc_game_head(name, sid, tick) + tail);
    lemma_game_head(name, sid, tick, tail);
    lemma_key_str_inv(tn, ",\"tech_name\":"@, ",\"tech_level\":"@ + (dec_digits(lvl as nat)
        + "}"@));
    assert(("}"@)[0] == '}');
    lemma_key_u32_inv(lvl, ",\"tech_level\":"@, "}"@);
    assert("}"@ + Seq::<char>::empty() =~= "}"@);
    lemma_sp_lit_inv("}"@, Seq::<char>::empty());
}

/// The five recognised game-event names are pairwise distinct and safe.
proof fn lemma_name_facts()
    ensures
        json_safe("on_research_started"@),
        json_safe("on_research_finished"@),
        json_safe("on_built_entity"@),
        json_safe("on_player_mined_entity"@),
        json_safe("on_player_crafted_item"@),
        "on_research_finished"@ != "on_research_started"@,
        "on_built_entity"@ != "on_research_started"@,
        "on_built_entity"@ != "on_research_finished"@,
        "on_player_mined_entity"@ != "on_research_started"@,
        "on_player_mined_entity"@ != "on_research_finished"@,
        "on_player_mined_entity"@ != "on_built_entity"@,
        "on_player_crafted_item"@ != "on_research_started"@,
        "on_player_crafted_item"@ != "on_research_finished"@,
        "on_player_crafted_item"@ != "on_built_entity"@,
        "on_player_crafted_item"@ != "on_player_mined_entity"@,
{
    reveal_strlit("on_research_started");
    reveal_strlit("on_research_finished");
    reveal_strlit("on_built_entity");
    reveal_strlit("on_player_mined_entity");
    reveal_strlit("on_player_crafted_item");
    assert("on_research_finished"@[12] == 'f' && "on_research_started"@[12] == 's');
    assert("on_player_crafted_item"@[10] == 'c' && "on_player_mined_entity"@[10] == 'm');
}

/// The tail of an entity event parses back to what was encoded.
proof fn lemma_entity_tail_inv(
    pi: u32,
    entity: Seq<char>,
    x: Seq<char>,
    y: Seq<char>,
    surface: Seq<char>,
)
    requires
        wf_num(x),
        wf_num(y),
    ensures
        sp_entity(enc_entity_tail(pi, entity, x, y, surface)) == Some(
            ((pi, entity, x, y, surface), Seq::<char>::empty()),
        ),
        enc_entity_tail(pi, entity, x, y, surface).len() > 0,
        enc_entity_tail(pi, entity, x, y, surface)[0] == ',',
{
    reveal_strlit(",\"player_index\":");
    reveal_strlit(",\"entity\":");
    reveal_strlit(",\"position\":{\"x\":");
    reveal_strlit(",\"y\":");
    reveal_strlit("},\"surface\":");
    reveal_strlit("}");
    let t5 = "}"@;
    let t4 = "},\"surface\":"@ + (enc_str(surface) + t5);
    let t3 = ",\"y\":"@ + (y + t4);
    let t2 = ",\"position\":{\"x\":"@ + (x + t3);
    let t1 = ",\"entity\":"@ + (enc_str(entity) + t2);
    let tail = ",\"player_index\":"@ + (dec_digits(pi as nat) + t1);
    assert(enc_entity_tail(pi, entity, x, y, surface) =~= tail);
    assert(tail[0] == ',');
    assert(t1[0] == ',');
    lemma_key_u32_inv(pi, ",\"player_index\":"@, t1);
    lemma_key_str_inv(entity, ",\"entity\":"@, t2);
    assert(t3[0] == ',');
    lemma_key_num_inv(x, ",\"position\":{\"x\":"@, t3);
    assert(t4[0] == '}');
    lemma_key_num_inv(y, ",\"y\":"@, t4);
    lemma_key_str_inv(surface, "},\"surface\":"@, t5);
    assert("}"@ + Seq::<char>::empty() =~= "}"@);
    lemma_sp_lit_inv("}"@, Seq::<char>::empty());
}

proof fn lemma_dec_entity(
    sid: Seq<char>,
    tick: u64,
    pi: u32,
    entity: Seq<char>,
    x: Seq<char>,
    y: Seq<char>,
    surface: Seq<char>,
    built: bool,
)
    requires
        wf_num(x),
        wf_num(y),
    ensures
        built ==> sp_event(
            enc_event(
                EventView::EntityBuilt {
                    session_id: sid,
                    tick,
                    player_index: pi,
                    entity,
                    x,
                    y,
                    surface,
                },
            ),
        ) == Some(
            (
                EventView::EntityBuilt {
                    session_id: sid,
                    tick,
                    player_index: pi,
                    entity,
                    x,
                    y,
                    surface,
                },
                Seq::<char>::empty(),
            ),
        ),
        !built ==> sp_event(
            enc_event(
                EventView::EntityMined {
                    session_id: sid,
                    tick,
                    player_index: pi,
                    entity,
                    x,
                    y,
                    surface,
                },
            ),
        ) == Some(
            (
                EventView::EntityMined {
                    session_id: sid,
                    tick,
                    player_index: pi,
                    entity,
                    x,
                    y,
                    surface,
                },
                Seq::<char>::empty(),
            ),
        ),
{
    lemma_name_facts();
    let name = if built { "on_built_entity"@ } else { "on_player_mined_entity"@ };
    let tail = enc_entity_tail(pi, entity, x, y, surface);
    lemma_entity_tail_inv(pi, entity, x, y, surface);
    let e = if built {
        enc_event(
            EventView::EntityBuilt { session_id: sid, tick, player_index: pi, entity, x, y, surface },
        )
    } else {
        enc_event(
            EventView::EntityMined { session_id: sid, tick, player_index: pi, entity, x, y, surface },
        )
    };
    assert(e =~= enc_game_head(name, sid, tick) + tail);
    assert(!crate::codec::is_digit(','));
    lemma_game_head(name, sid, tick, tail);
}

#[verifier::rlimit(60)]
#[verifier::spinoff_prover]
proof fn lemma_dec_crafted(sid: Seq<char>, tick: u64, pi: u32, item: Seq<char>, count: u32)
        ensures
        sp_event(
            enc_event(
                EventView::ItemCrafted { session_id: sid, tick, player_index: pi, item, count },
            ),
        ) == Some(
            (
                EventView::ItemCrafted { session_id: sid, tick, player_index: pi, item, count },
                Seq::<char>::empty(),
            ),
        ),
{
    reveal_strlit(",\"player_index\":");
    reveal_strlit(",\"item\":");
    reveal_strlit(",\"count\":");
    reveal_strlit("}");
    lemma_name_facts();
    let name = "on_player_crafted_item"@;
    let t2 = ",\"count\":"@ + (dec_digits(count as nat) + "}"@);
    let t1 = ",\"item\":"@ + (enc_str(item) + t2);
    let tail = ",\"player_index\":"@ + (dec_digits(pi as nat) + t1);
    assert(tail[0] == ',');
    let e = enc_event(
        EventView::ItemCrafted { session_id: sid, tick, player_index: pi, item, count },
    );
    assert(e =~= enc_game_head(name, sid, tick) + tail);
    lemma_game_head(name, sid, tick, tail);
    assert(t1[0] == ',');
    lemma_key_u32_inv(pi, ",\"player_index\":"@, t1);
    lemma_key_str_inv(item, ",\"item\":"@, t2);
    assert(("}"@)[0] == '}');
    lemma_key_u32_inv(count, ",\"count\":"@, "}"@);
    assert("}"@ + Seq::<char>::empty() =~= "}"@);
    lemma_sp_lit_inv("}"@, Seq::<char>::empty());
}

proof fn lemma_dec_other(name: Seq<char>, sid: Seq<char>, tick: u64)
    requires
        !known_game_name(name),
    ensures
        sp_event(enc_event(EventView::OtherGame { event_name: name, session_id: sid, tick }))
            == Some(
            (
                EventView::OtherGame { event_name: name, session_id: sid, tick },
                Seq::<char>::empty(),
            ),
        ),
{
    reveal_strlit("}");
    let tail = "}"@;
    assert(tail[0] == '}');
    let e = enc_event(EventView::OtherGame { event_name: name, session_id: sid, tick });
    assert(e =~= enc_game_head(name, sid, tick) + tail);
    lemma_game_head(name, sid, tick, tail);
    assert("}"@ + Seq::<char>::empty() =~= "}"@);
    lemma_sp_lit_inv("}"@, Seq::<char>::empty());
}

/// Round trip: decoding the canonical line of any well-formed event yields
/// exactly that event.
pub proof fn lemma_decode_encode(v: EventView)
    requires
        crate::event::wf_event(v),
    ensures
        dec_line(enc_event(v)) == Some(v),
{
    match v {
        EventView::SessionInit { session_id, tick, level_name } => {
            lemma_dec_init(session_id, tick, level_name);
        },
        EventView::Stats {
            session_id,
            cycle,
            tick,
            player,
            screenshot_path,
            production,
            consumption,
        } => {
            lemma_dec_stats(
                session_id,
                cycle,
                tick,
                player,
                screenshot_path,
                production,
                consumption,
            );
        },
        EventView::ResearchStarted { session_id, tick, tech_name, tech_level } => {
            lemma_dec_research(session_id, tick, tech_name, tech_level, true);
        },
        EventView::ResearchFinished { session_id, tick, tech_name, tech_level } => {
            lemma_dec_research(session_id, tick, tech_name, tech_level, false);
        },
        EventView::EntityBuilt { session_id, tick, player_index, entity, x, y, surface } => {
            lemma_dec_entity(session_id, tick, player_index, entity, x, y, surface, true);
        },
        EventView::EntityMined { session_id, tick, player_index, entity, x, y, surface } => {
            lemma_dec_entity(session_id, tick, player_index, entity, x, y, surface, false);
        },
        EventView::ItemCrafted { session_id, tick, player_index, item, count } => {
            lemma_dec_crafted(session_id, tick, player_index, item, count);
        },
        EventView::OtherGame { event_name, session_id, tick } => {
            lemma_dec_other(event_name, session_id, tick);
        },
    }
}

} // verus!

use vstd::string::StringExecFns;
use crate::codec::u64_to_dec;
use crate::event::{ParsedEvent, PlayerSnapshot, pairs_view};

verus! {

// ---------------------------------------------------------------------------
// Executable encoding
// ---------------------------------------------------------------------------

/// A fixed literal followed by an already-encoded tail.
pub fn cat(a: &str, b: String) -> (r: String)
    ensures
        r@ == a@ + b@,
{
    String::from_str(a).concat(b.as_str())
}

/// `s` wrapped in double quotes, escaping the two reserved characters.
pub fn quote(s: &str) -> (r: String)
    ensures
        r@ == enc_str(s@),
{
    let len = s.unicode_len();
    let mut out = String::from_str("\"");
    proof {
        reveal_strlit("\"");
        assert(crate::codec::esc(s@.take(0)) =~= Seq::<char>::empty());
        assert(out@ =~= seq!['"'] + crate::codec::esc(s@.take(0)));
    }
    let mut seg_start: usize = 0;
    let mut i: usize = 0;
    while i < len
        invariant
            len == s@.len(),
            seg_start <= i <= len,
            forall|m: int| seg_start <= m < i ==> #[trigger] s@[m] != '"' && s@[m] != '\\',
            out@ == seq!['"'] + crate::codec::esc(s@.take(seg_start as int)),
        decreases len - i,
    {
        let c = s.get_char(i);
        if c == '"' || c == '\\' {
            let ghost seg = s@.subrange(seg_start as int, i as int);
            let piece = s.substring_char(seg_start, i);
            out.append(piece);
            if c == '"' {
                out.append("\\\"");
                proof {
                    reveal_strlit("\\\"");
                    assert("\\\""@ =~= crate::codec::esc_char(c));
                }
            } else {
                out.append("\\\\");
                proof {
                    reveal_strlit("\\\\");
                    assert("\\\\"@ =~= crate::codec::esc_char(c));
                }
            }
            proof {
                assert(s@.take(i + 1 as int) =~= (s@.take(seg_start as int) + seg) + seq![c]);
                crate::codec::lemma_esc_concat(s@.take(seg_start as int) + seg, seq![c]);
                crate::codec::lemma_esc_concat(s@.take(seg_start as int), seg);
                assert forall|m: int| 0 <= m < seg.len() implies #[trigger] seg[m] != '"'
                    && seg[m] != '\\' by {
                    assert(seg[m] == s@[seg_start + m]);
                }
                crate::codec::lemma_esc_safe(seg);
                assert(seq![c].skip(1) =~= Seq::<char>::empty());
                assert(crate::codec::esc(Seq::<char>::empty()) =~= Seq::<char>::empty());
                assert(crate::codec::esc(seq![c]) =~= crate::codec::esc_char(c));
                assert(out@ =~= seq!['"'] + crate::codec::esc(s@.take(i + 1 as int)));
            }
            seg_start = i + 1;
        }
        i = i + 1;
    }
    let tailpiece = s.substring_char(seg_start, len);
    out.append(tailpiece);
    out.append("\"");
    proof {
        let seg = s@.subrange(seg_start as int, len as int);
        assert(s@ =~= s@.take(seg_start as int) + seg);
        crate::codec::lemma_esc_concat(s@.take(seg_start as int), seg);
        assert forall|m: int| 0 <= m < seg.len() implies #[trigger] seg[m] != '"' && seg[m]
            != '\\' by {
            assert(seg[m] == s@[seg_start + m]);
        }
        crate::codec::lemma_esc_safe(seg);
        assert(out@ =~= seq!['"'] + crate::codec::esc(s@) + seq!['"']);
        assert(out@ =~= enc_str(s@));
    }
    out
}

fn encode_items(ps: &Vec<(String, String)>, i: usize) -> (r: String)
    requires
        i <= ps@.len(),
    ensures
        r@ == enc_items(pairs_view(ps@).skip(i as int)),
    decreases ps@.len() - i,
{
    let ghost suff = pairs_view(ps@).skip(i as int);
    if i == ps.len() {
        let r = String::new();
        proof {
            assert(suff.len() == 0);
        }
        r
    } else {
        let pair = &ps[i];
        let val_part = String::from_str(":").concat(pair.1.as_str());
        let pair_str = quote(pair.0.as_str()).concat(val_part.as_str());
        proof {
            assert(suff[0] == (ps@[i as int].0@, ps@[i as int].1@));
            assert(pair_str@ == enc_pair(suff[0]));
        }
        if i + 1 == ps.len() {
            proof {
                assert(suff.len() == 1);
            }
            pair_str
        } else {
            let rest = encode_items(ps, i + 1);
            let r = pair_str.concat(cat(",", rest).as_str());
            proof {
                assert(pairs_view(ps@).skip(i + 1 as int) =~= suff.skip(1));
                assert(suff.len() >= 2);
                assert(r@ == enc_pair(suff[0]) + (","@ + enc_items(suff.skip(1))));
            }
            r
        }
    }
}

/// A brace-delimited object of name/value pairs, the values already encoded.
pub fn encode_pairs(ps: &Vec<(String, String)>) -> (r: String)
    ensures
        r@ == enc_pairs(pairs_view(ps@)),
{
    proof {
        assert(pairs_view(ps@).skip(0) =~= pairs_view(ps@));
    }
    let inner = encode_items(ps, 0);
    cat("{", inner.concat("}"))
}

fn encode_opt_player(p: &Option<PlayerSnapshot>) -> (r: String)
    ensures
        r@ == enc_opt_player(match p {
            Some(pv) => Some(pv@),
            None => None,
        }),
{
    match p {
        None => String::new(),
        Some(pv) => {
            let t4 = pv.health.as_str().to_owned().concat("}");
            let t3 = quote(pv.surface.as_str()).concat(cat(",\"health\":", t4).as_str());
            let t2 = pv.y.as_str().to_owned().concat(cat("},\"surface\":", t3).as_str());
            let t1 = pv.x.as_str().to_owned().concat(cat(",\"y\":", t2).as_str());
            cat(",\"player\":{\"position\":{\"x\":", t1)
        },
    }
}

fn encode_opt_shot(p: &Option<String>) -> (r: String)
    ensures
        r@ == enc_opt_shot(match p {
            Some(path) => Some(path@),
            None => None,
        }),
{
    match p {
        None => String::new(),
        Some(path) => cat(",\"screenshot_path\":", quote(path.as_str())),
    }
}

/// The fixed game head followed by an already-encoded variant tail.
fn encode_game_head(name: &str, sid: &str, tick: u64, tail: String) -> (r: String)
    ensures
        r@ == enc_game_head(name@, sid@, tick) + tail@,
{
    let t2 = u64_to_dec(tick).concat(tail.as_str());
    let t1 = quote(sid).concat(cat(",\"tick\":", t2).as_str());
    let t0 = quote(name).concat(cat(",\"session_id\":", t1).as_str());
    let r = cat("{\"type\":\"event\",\"event_name\":", t0);
    proof {
        assert(r@ =~= enc_game_head(name@, sid@, tick) + tail@);
    }
    r
}

/// The canonical line of an event. The encoding is total; only decoding a
/// canonical line back (see `lemma_decode_encode`) asks for well-formedness.
pub fn encode_line(e: &ParsedEvent) -> (r: String)
    ensures
        r@ == enc_event(e@),
{
    match e {
        ParsedEvent::SessionInit { session_id, tick, level_name } => {
            let t5 = quote(level_name.as_str()).concat("}");
            let t4 = cat(",\"level_name\":", t5);
            let t3 = u64_to_dec(*tick).concat(t4.as_str());
            let t2 = cat(",\"tick\":", t3);
            let t1 = quote(session_id.as_str()).concat(t2.as_str());
            cat("{\"type\":\"session_init\",\"session_id\":", t1)
        },
        ParsedEvent::Stats {
            session_id,
            cycle,
            tick,
            player,
            screenshot_path,
            production,
            consumption,
        } => {
            let c1 = encode_pairs(consumption).concat("}");
            let c2 = cat(",\"materials_consumption\":", c1);
            let c3 = encode_pairs(production).concat(c2.as_str());
            let c4 = cat(",\"products_production\":", c3);
            let c5 = encode_opt_shot(screenshot_path).concat(c4.as_str());
            let c6 = encode_opt_player(player).concat(c5.as_str());
            let t3 = u64_to_dec(*tick).concat(c6.as_str());
            let t2 = cat(",\"tick\":", t3);
            let t1 = u64_to_dec(*cycle).concat(t2.as_str());
            let t0 = cat(",\"cycle\":", t1);
            let s1 = quote(session_id.as_str()).concat(t0.as_str());
            cat("{\"type\":\"stats\",\"session_id\":", s1)
        },
        ParsedEvent::ResearchStarted { session_id, tick, tech_name, tech_level } => {
            let t3 = u64_to_dec(*tech_level as u64).concat("}");
            let t2 = cat(",\"tech_level\":", t3);
            let t1 = quote(tech_name.as_str()).concat(t2.as_str());
            encode_game_head("on_research_started", session_id.as_str(), *tick, cat(",\"tech_name\":", t1))
        },
        ParsedEvent::ResearchFinished { session_id, tick, tech_name, tech_level } => {
            let t3 = u64_to_dec(*tech_level as u64).concat("}");
            let t2 = cat(",\"tech_level\":", t3);
            let t1 = quote(tech_name.as_str()).concat(t2.as_str());
            encode_game_head("on_research_finished", session_id.as_str(), *tick, cat(",\"tech_name\":", t1))
        },
        ParsedEvent::EntityBuilt { session_id, tick, player_index, entity, x, y, surface } => {
            let tail = encode_entity_tail(*player_index, entity, x, y, surface);
            encode_game_head("on_built_entity", session_id.as_str(), *tick, tail)
        },
        ParsedEvent::EntityMined { session_id, tick, player_index, entity, x, y, surface } => {
            let tail = encode_entity_tail(*player_index, entity, x, y, surface);
            encode_game_head("on_player_mined_entity", session_id.as_str(), *tick, tail)
        },
        ParsedEvent::ItemCrafted { session_id, tick, player_index, item, count } => {
            let t4 = u64_to_dec(*count as u64).concat("}");
            let t3 = cat(",\"count\":", t4);
            let t2 = quote(item.as_str()).concat(t3.as_str());
            let t1 = cat(",\"item\":", t2);
            let t0 = u64_to_dec(*player_index as u64).concat(t1.as_str());
            encode_game_head("on_player_crafted_item", session_id.as_str(), *tick, cat(",\"player_index\":", t0))
        },
        ParsedEvent::OtherGame { event_name, session_id, tick } => {
            encode_game_head(event_name.as_str(), session_id.as_str(), *tick, String::from_str("}"))
        },
    }
}

fn encode_entity_tail(
    player_index: u32,
    entity: &String,
    x: &String,
    y: &String,
    surface: &String,
) -> (r: String)
    ensures
        r@ == enc_entity_tail(player_index, entity@, x@, y@, surface@),
{
    let t5 = quote(surface.as_str()).concat("}");
    let t4 = y.as_str().to_owned().concat(cat("},\"surface\":", t5).as_str());
    let t3 = x.as_str().to_owned().concat(cat(",\"y\":", t4).as_str());
    let t2 = quote(entity.as_str()).concat(cat(",\"position\":{\"x\":", t3).as_str());
    let t1 = u64_to_dec(player_index as u64).concat(cat(",\"entity\":", t2).as_str());
    cat(",\"player_index\":", t1)
}

} // verus!

verus! {

// ---------------------------------------------------------------------------
// Executable decoding
// ---------------------------------------------------------------------------

fn d_key_str(s: &str, i: usize, key: &str) -> (r: Option<(String, usize)>)
    requires
        i <= s@.len(),
    ensures
        match r {
            Some((b, j)) => i <= j <= s@.len() && sp_key_str(s@.skip(i as int), key@) == Some((
                b@,
                s@.skip(j as int),
            )),
            None => sp_key_str(s@.skip(i as int), key@) is None,
        },
{
    match crate::codec::p_lit(s, i, key) {
        None => None,
        Some(j1) => crate::codec::p_str(s, j1),
    }
}

fn d_key_u64(s: &str, i: usize, key: &str) -> (r: Option<(u64, usize)>)
    requires
        i <= s@.len(),
    ensures
        match r {
            Some((n, j)) => i <= j <= s@.len() && sp_key_u64(s@.skip(i as int), key@) == Some((
                n,
                s@.skip(j as int),
            )),
            None => sp_key_u64(s@.skip(i as int), key@) is None,
        },
{
    match crate::codec::p_lit(s, i, key) {
        None => None,
        Some(j1) => crate::codec::p_u64(s, j1),
    }
}

fn d_key_u32(s: &str, i: usize, key: &str) -> (r: Option<(u32, usize)>)
    requires
        i <= s@.len(),
    ensures
        match r {
            Some((n, j)) => i <= j <= s@.len() && sp_key_u32(s@.skip(i as int), key@) == Some((
                n,
                s@.skip(j as int),
            )),
            None => sp_key_u32(s@.skip(i as int), key@) is None,
        },
{
    match crate::codec::p_lit(s, i, key) {
        None => None,
        Some(j1) => crate::codec::p_u32(s, j1),
    }
}

fn d_key_num(s: &str, i: usize, key: &str) -> (r: Option<(String, usize)>)
    requires
        i <= s@.len(),
    ensures
        match r {
            Some((t, j)) => i <= j <= s@.len() && sp_key_num(s@.skip(i as int), key@) == Some((
                t@,
                s@.skip(j as int),
            )) && wf_num(t@),
            None => sp_key_num(s@.skip(i as int), key@) is None,
        },
{
    match crate::codec::p_lit(s, i, key) {
        None => None,
        Some(j1) => crate::codec::p_num(s, j1),
    }
}

fn d_init(s: &str, i: usize) -> (r: Option<(ParsedEvent, usize)>)
    requires
        i <= s@.len(),
    ensures
        match r {
            Some((e, j)) => i <= j <= s@.len() && sp_init(s@.skip(i as int)) == Some((
                e@,
                s@.skip(j as int),
            )) && crate::event::wf_event(e@),
            None => sp_init(s@.skip(i as int)) is None,
        },
{
    match crate::codec::p_str(s, i) {
        None => None,
        Some((sid, j1)) => match d_key_u64(s, j1, ",\"tick\":") {
            None => None,
            Some((tick, j2)) => match d_key_str(s, j2, ",\"level_name\":") {
                None => None,
                Some((level, j3)) => match crate::codec::p_lit(s, j3, "}") {
                    None => None,
                    Some(j4) => Some(
                        (ParsedEvent::SessionInit { session_id: sid, tick, level_name: level }, j4),
                    ),
                },
            },
        },
    }
}

fn d_opt_player(s: &str, i: usize) -> (r: Option<(Option<PlayerSnapshot>, usize)>)
    requires
        i <= s@.len(),
    ensures
        match r {
            Some((p, j)) => i <= j <= s@.len() && sp_opt_player(s@.skip(i as int)) == Some((
                match p {
                    Some(pv) => Some(pv@),
                    None => None,
                },
                s@.skip(j as int),
            )) && (match p {
                Some(pv) => crate::event::wf_player(pv@),
                None => true,
            }),
            None => sp_opt_player(s@.skip(i as int)) is None,
        },
{
    match crate::codec::p_lit(s, i, ",\"player\":{\"position\":{\"x\":") {
        None => Some((None, i)),
        Some(j0) => match crate::codec::p_num(s, j0) {
            None => None,
            Some((x, j1)) => match d_key_num(s, j1, ",\"y\":") {
                None => None,
                Some((y, j2)) => match d_key_str(s, j2, "},\"surface\":") {
                    None => None,
                    Some((surface, j3)) => match d_key_num(s, j3, ",\"health\":") {
                        None => None,
                        Some((health, j4)) => match crate::codec::p_lit(s, j4, "}") {
                            None => None,
                            Some(j5) => Some((Some(PlayerSnapshot { x, y, surface, health }), j5)),
                        },
                    },
                },
            },
        },
    }
}

fn d_opt_shot(s: &str, i: usize) -> (r: Option<(Option<String>, usize)>)
    requires
        i <= s@.len(),
    ensures
        match r {
            Some((p, j)) => i <= j <= s@.len() && sp_opt_shot(s@.skip(i as int)) == Some((
                match p {
                    Some(path) => Some(path@),
                    None => None,
                },
                s@.skip(j as int),
            )),
            None => sp_opt_shot(s@.skip(i as int)) is None,
        },
{
    match crate::codec::p_lit(s, i, ",\"screenshot_path\":") {
        None => Some((None, i)),
        Some(j0) => match crate::codec::p_str(s, j0) {
            None => None,
            Some((path, j1)) => Some((Some(path), j1)),
        },
    }
}

fn d_pairs_items(s: &str, i: usize) -> (r: Option<(Vec<(String, String)>, usize)>)
    requires
        i <= s@.len(),
    ensures
        match r {
            Some((ps, j)) => i <= j <= s@.len() && sp_pairs_items(s@.skip(i as int)) == Some((
                pairs_view(ps@),
                s@.skip(j as int),
            )) && crate::event::wf_pairs(pairs_view(ps@)),
            None => sp_pairs_items(s@.skip(i as int)) is None,
        },
    decreases s@.len() - i,
{
    let s_len = s.unicode_len();
    match crate::codec::p_str(s, i) {
        None => None,
        Some((k, j1)) => {
            proof {
                lemma_sp_str_len(s@.skip(i as int));
            }
            match crate::codec::p_lit(s, j1, ":") {
                None => None,
                Some(j2) => match crate::codec::p_num(s, j2) {
                    None => None,
                    Some((v, j3)) => {
                        proof {
                            lemma_sp_num_len(s@.skip(j2 as int));
                        }
                        let ghost r3 = s@.skip(j3 as int);
                        if j3 < s_len && s.get_char(j3) == ',' {
                            proof {
                                assert(r3[0] == s@[j3 as int]);
                                assert(s@.skip(j3 + 1 as int) =~= r3.skip(1));
                            }
                            match d_pairs_items(s, j3 + 1) {
                                None => None,
                                Some((mut ps, j4)) => {
                                    let ghost old_ps = ps@;
                                    ps.insert(0, (k, v));
                                    proof {
                                        assert(pairs_view(ps@) =~= seq![(k@, v@)] + pairs_view(
                                            old_ps,
                                        ));
                                    }
                                    Some((ps, j4))
                                },
                            }
                        } else if j3 < s_len && s.get_char(j3) == '}' {
                            proof {
                                assert(r3[0] == s@[j3 as int]);
                                assert(s@.skip(j3 + 1 as int) =~= r3.skip(1));
                            }
                            let mut ps: Vec<(String, String)> = Vec::new();
                            ps.push((k, v));
                            proof {
                                assert(pairs_view(ps@) =~= seq![(k@, v@)]);
                            }
                            Some((ps, j3 + 1))
                        } else {
                            proof {
                                if j3 < s_len {
                                    assert(r3[0] == s@[j3 as int]);
                                } else {
                                    assert(r3.len() == 0);
                                }
                            }
                            None
                        }
                    },
                },
            }
        },
    }
}

fn d_pairs(s: &str, i: usize) -> (r: Option<(Vec<(String, String)>, usize)>)
    requires
        i <= s@.len(),
    ensures
        match r {
            Some((ps, j)) => i <= j <= s@.len() && sp_pairs(s@.skip(i as int)) == Some((
                pairs_view(ps@),
                s@.skip(j as int),
            )) && crate::event::wf_pairs(pairs_view(ps@)),
            None => sp_pairs(s@.skip(i as int)) is None,
        },
{
    let s_len = s.unicode_len();
    let ghost suff = s@.skip(i as int);
    if i < s_len && i + 1 < s_len && s.get_char(i) == '{' && s.get_char(i + 1) == '}' {
        proof {
            assert(suff[0] == s@[i as int] && suff[1] == s@[i + 1 as int]);
            assert(suff.skip(2) =~= s@.skip(i + 2 as int));
            assert(pairs_view(Seq::<(String, String)>::empty()) =~= Seq::<(
                Seq<char>,
                Seq<char>,
            )>::empty());
        }
        Some((Vec::new(), i + 2))
    } else {
        proof {
            if i < s_len {
                assert(suff[0] == s@[i as int]);
            }
            if i + 1 < s_len {
                assert(suff[1] == s@[i + 1 as int]);
            }
        }
        match crate::codec::p_lit(s, i, "{") {
            None => None,
            Some(j0) => d_pairs_items(s, j0),
        }
    }
}

fn d_stats_tail(s: &str, i: usize) -> (r: Option<((Vec<(String, String)>, Vec<(String, String)>), usize)>)
    requires
        i <= s@.len(),
    ensures
        match r {
            Some(((prod, cons), j)) => i <= j <= s@.len() && sp_stats_tail(s@.skip(i as int))
                == Some(((pairs_view(prod@), pairs_view(cons@)), s@.skip(j as int)))
                && crate::event::wf_pairs(pairs_view(prod@)) && crate::event::wf_pairs(
                pairs_view(cons@),
            ),
            None => sp_stats_tail(s@.skip(i as int)) is None,
        },
{
    match crate::codec::p_lit(s, i, ",\"products_production\":") {
        None => None,
        Some(j0) => match d_pairs(s, j0) {
            None => None,
            Some((prod, j1)) => match crate::codec::p_lit(s, j1, ",\"materials_consumption\":") {
                None => None,
                Some(j2) => match d_pairs(s, j2) {
                    None => None,
                    Some((cons, j3)) => match crate::codec::p_lit(s, j3, "}") {
                        None => None,
                        Some(j4) => Some(((prod, cons), j4)),
                    },
                },
            },
        },
    }
}

fn d_stats(s: &str, i: usize) -> (r: Option<(ParsedEvent, usize)>)
    requires
        i <= s@.len(),
    ensures
        match r {
            Some((e, j)) => i <= j <= s@.len() && sp_stats(s@.skip(i as int)) == Some((
                e@,
                s@.skip(j as int),
            )) && crate::event::wf_event(e@),
            None => sp_stats(s@.skip(i as int)) is None,
        },
{
    match crate::codec::p_str(s, i) {
        None => None,
        Some((sid, j1)) => match d_key_u64(s, j1, ",\"cycle\":") {
            None => None,
            Some((cycle, j2)) => match d_key_u64(s, j2, ",\"tick\":") {
                None => None,
                Some((tick, j3)) => match d_opt_player(s, j3) {
                    None => None,
                    Some((player, j4)) => match d_opt_shot(s, j4) {
                        None => None,
                        Some((shot, j5)) => match d_stats_tail(s, j5) {
                            None => None,
                            Some(((production, consumption), j6)) => Some(
                                (
                                    ParsedEvent::Stats {
                                        session_id: sid,
                                        cycle,
                                        tick,
                                        player,
                                        screenshot_path: shot,
                                        production,
                                        consumption,
                                    },
                                    j6,
                                ),
                            ),
                        },
                    },
                },
            },
        },
    }
}

} // verus!

verus! {

fn d_research(s: &str, i: usize) -> (r: Option<((String, u32), usize)>)
    requires
        i <= s@.len(),
    ensures
        match r {
            Some(((tn, lvl), j)) => i <= j <= s@.len() && sp_research(s@.skip(i as int)) == Some((
                (tn@, lvl),
                s@.skip(j as int),
            )),
            None => sp_research(s@.skip(i as int)) is None,
        },
{
    match d_key_str(s, i, ",\"tech_name\":") {
        None => None,
        Some((tn, j1)) => match d_key_u32(s, j1, ",\"tech_level\":") {
            None => None,
            Some((lvl, j2)) => match crate::codec::p_lit(s, j2, "}") {
                None => None,
                Some(j3) => Some(((tn, lvl), j3)),
            },
        },
    }
}

fn d_entity(s: &str, i: usize) -> (r: Option<((u32, String, String, String, String), usize)>)
    requires
        i <= s@.len(),
    ensures
        match r {
            Some(((pi, entity, x, y, surface), j)) => i <= j <= s@.len() && sp_entity(
                s@.skip(i as int),
            ) == Some(((pi, entity@, x@, y@, surface@), s@.skip(j as int))) && wf_num(x@)
                && wf_num(y@),
            None => sp_entity(s@.skip(i as int)) is None,
        },
{
    match d_key_u32(s, i, ",\"player_index\":") {
        None => None,
        Some((pi, j1)) => match d_key_str(s, j1, ",\"entity\":") {
            None => None,
            Some((entity, j2)) => match d_key_num(s, j2, ",\"position\":{\"x\":") {
                None => None,
                Some((x, j3)) => match d_key_num(s, j3, ",\"y\":") {
                    None => None,
                    Some((y, j4)) => match d_key_str(s, j4, "},\"surface\":") {
                        None => None,
                        Some((surface, j5)) => match crate::codec::p_lit(s, j5, "}") {
                            None => None,
                            Some(j6) => Some(((pi, entity, x, y, surface), j6)),
                        },
                    },
                },
            },
        },
    }
}

fn d_crafted(s: &str, i: usize) -> (r: Option<((u32, String, u32), usize)>)
    requires
        i <= s@.len(),
    ensures
        match r {
            Some(((pi, item, count), j)) => i <= j <= s@.len() && sp_crafted(s@.skip(i as int))
                == Some(((pi, item@, count), s@.skip(j as int))),
            None => sp_crafted(s@.skip(i as int)) is None,
        },
{
    match d_key_u32(s, i, ",\"player_index\":") {
        None => None,
        Some((pi, j1)) => match d_key_str(s, j1, ",\"item\":") {
            None => None,
            Some((item, j2)) => match d_key_u32(s, j2, ",\"count\":") {
                None => None,
                Some((count, j3)) => match crate::codec::p_lit(s, j3, "}") {
                    None => None,
                    Some(j4) => Some(((pi, item, count), j4)),
                },
            },
        },
    }
}

fn d_game(s: &str, i: usize) -> (r: Option<(ParsedEvent, usize)>)
    requires
        i <= s@.len(),
    ensures
        match r {
            Some((e, j)) => i <= j <= s@.len() && sp_game(s@.skip(i as int)) == Some((
                e@,
                s@.skip(j as int),
            )) && crate::event::wf_event(e@),
            None => sp_game(s@.skip(i as int)) is None,
        },
{
    match crate::codec::p_str(s, i) {
        None => None,
        Some((name, j1)) => match d_key_str(s, j1, ",\"session_id\":") {
            None => None,
            Some((sid, j2)) => match d_key_u64(s, j2, ",\"tick\":") {
                None => None,
                Some((tick, j3)) => {
                    if name == String::from_str("on_research_started") {
                        match d_research(s, j3) {
                            None => None,
                            Some(((tech_name, tech_level), j4)) => Some(
                                (
                                    ParsedEvent::ResearchStarted {
                                        session_id: sid,
                                        tick,
                                        tech_name,
                                        tech_level,
                                    },
                                    j4,
                                ),
                            ),
                        }
                    } else if name == String::from_str("on_research_finished") {
                        match d_research(s, j3) {
                            None => None,
                            Some(((tech_name, tech_level), j4)) => Some(
                                (
                                    ParsedEvent::ResearchFinished {
                                        session_id: sid,
                                        tick,
                                        tech_name,
                                        tech_level,
                                    },
                                    j4,
                                ),
                            ),
                        }
                    } else if name == String::from_str("on_built_entity") {
                        match d_entity(s, j3) {
                            None => None,
                            Some(((player_index, entity, x, y, surface), j4)) => Some(
                                (
                                    ParsedEvent::EntityBuilt {
                                        session_id: sid,
                                        tick,
                                        player_index,
                                        entity,
                                        x,
                                        y,
                                        surface,
                                    },
                                    j4,
                                ),
                            ),
                        }
                    } else if name == String::from_str("on_player_mined_entity") {
                        match d_entity(s, j3) {
                            None => None,
                            Some(((player_index, entity, x, y, surface), j4)) => Some(
                                (
                                    ParsedEvent::EntityMined {
                                        session_id: sid,
                                        tick,
                                        player_index,
                                        entity,
                                        x,
                                        y,
                                        surface,
                                    },
                                    j4,
                                ),
                            ),
                        }
                    } else if name == String::from_str("on_player_crafted_item") {
                        match d_crafted(s, j3) {
                            None => None,
                            Some(((player_index, item, count), j4)) => Some(
                                (
                                    ParsedEvent::ItemCrafted {
                                        session_id: sid,
                                        tick,
                                        player_index,
                                        item,
                                        count,
                                    },
                                    j4,
                                ),
                            ),
                        }
                    } else {
                        match crate::codec::p_lit(s, j3, "}") {
                            None => None,
                            Some(j4) => Some(
                                (
                                    ParsedEvent::OtherGame {
                                        event_name: name,
                                        session_id: sid,
                                        tick,
                                    },
                                    j4,
                                ),
                            ),
                        }
                    }
                },
            },
        },
    }
}

/// Decode one raw line into an event of the closed set. `None` reports a
/// malformed line; a decoded event is always well-formed and, for canonical
/// lines, the exact event that was encoded.
pub fn decode_line(s: &str) -> (r: Option<ParsedEvent>)
    ensures
        match r {
            Some(e) => dec_line(s@) == Some(e@) && crate::event::wf_event(e@),
            None => dec_line(s@) is None,
        },
{
    let s_len = s.unicode_len();
    proof {
        assert(s@.skip(0) =~= s@);
    }
    match crate::codec::p_lit(s, 0, "{\"type\":\"session_init\",\"session_id\":") {
        Some(i) => match d_init(s, i) {
            None => None,
            Some((e, j)) => if j == s_len {
                proof {
                    assert(s@.skip(j as int).len() == 0);
                }
                Some(e)
            } else {
                None
            },
        },
        None => match crate::codec::p_lit(s, 0, "{\"type\":\"stats\",\"session_id\":") {
            Some(i) => match d_stats(s, i) {
                None => None,
                Some((e, j)) => if j == s_len {
                    proof {
                        assert(s@.skip(j as int).len() == 0);
                    }
                    Some(e)
                } else {
                    None
                },
            },
            None => match crate::codec::p_lit(s, 0, "{\"type\":\"event\",\"event_name\":") {
                Some(i) => match d_game(s, i) {
                    None => None,
                    Some((e, j)) => if j == s_len {
                        proof {
                            assert(s@.skip(j as int).len() == 0);
                        }
                        Some(e)
                    } else {
                        None
                    },
                },
                None => None,
            },
        },
    }
}

} // verus!

# ennui

A small multi-user dungeon engine. Players connect over TCP, name
themselves, and type commands (`north`, `look`, `take sword`, `say hi`,
`hit bob`, ...); the game answers them and tells the others in the room.

## Layout

- `src/` is the game itself, verified with Verus: text handling and line
  wrapping, directions and coordinates, items and their lists, doors and
  guards, players and their gauges, rooms and the map, the command
  interpreter and every command, fights, characters moved by the game,
  and what database rows become. Each public function states what it
  returns and changes; the laws of the library (wrapping is idempotent
  and keeps lines short, doors let players back the way they came, taking
  and dropping keep items, recipe words may come in any order, a fight
  stays over once over, characters type only what their behaviour
  allows, ...) are proof functions named `law_*`.
- `app/` is the server around it: sockets, threads, timers, the map and
  character files (YAML and CBOR through serde), the PostgreSQL lookups,
  and a page entry point. It hands lines to the game and writes out the
  texts that the game queued.
- `tests/` runs the library on concrete games.

The server reads its map from `data/map.cbor`; `ennui convert map map.yaml
data/map.cbor` turns a YAML map into that file, and `ennui convert npc
npcs.yaml npcs.cbor` does the same for a list of characters.

# zts_parser

A verified parser for zts, TypeScript with `match` expressions, enums with data,
newtypes, `if` expressions, blocks with a value, and the operator `not`.

```text
enum Shape { Circle { radius: number }, Square { side: number } }
newtype AccountId = string;

const area = match (shape) {
  Circle { radius } => radius ** 2,
  Square { side } => { const s = side * side; s + 0 },
};
const label = if (not ready) { 'wait' } else { 'go' };
```

Every function is verified by Verus against `src/grammar.rs`, which says for each
phrase what tree or what error a sequence of tokens gives, where the phrase ends,
and which errors are reported on the way. `src/laws/` proves of that grammar what
zts promises:

- zts is a superset of TypeScript, but for enums (`laws/language.rs`);
- with zts off nothing of zts is accepted, and nothing is reported;
- what is accepted is well formed: a match has an arm, an `if` expression an
  alternative, a block with a value an expression at its end;
- `match`, `not` and `newtype` stay identifiers wherever TypeScript could read them
  as such (`laws/language.rs`, `laws/words.rs`);
- nodes span their text (`laws/spans.rs`), and a comma behind the last arm, variant or
  field changes nothing (`laws/commas.rs`, from `laws/alike.rs`).

The grammar of the host language is a core of TypeScript: declarations of
variables, `if`, `while`, `for`, labels, blocks, expressions with the usual
operators, templates, arrow functions, patterns, simple types, and exports.

Three outside crates take part: `swc_atoms` holds the texts of tokens, `swc_common`
orders the ends of spans, and `stacker` gives deep recursion room.

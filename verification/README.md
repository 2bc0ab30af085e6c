# unused_expression

What a minifier of ECMAScript leaves of an expression of which the value is not used, written and
proved in Verus.

```text
[1, a(), ...b]            ->  [a(), ...b]
a() ? 1 : b()             ->  a() || b()
a != null && a.b()        ->  a?.b()          (where `a` is declared and the target has `?.`)
`x${a}y${+b}`             ->  `${a}`, +b
({ k: 1, [f()]: g() })    ->  f(), g()
'a' + 'b'                 ->
```

`src/` is the verified library. `PeepholeOptimizations::remove_unused_expression` is the pass; its
contract says exactly what becomes of every expression (`rewrite`). `preservation` proves that the
pass keeps what an expression does, on every machine that is faithful to the language
(`semantics`), provided that what the static analyses tell of the expression holds there. The
analyses themselves are those of `oxc_ecmascript`; what they answer is stated beside the calls, in
`analysis` and `nodes`.

`app/` runs the pass on the syntax tree of `oxc_ast`.

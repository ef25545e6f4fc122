# Semantic Cache Gateway

A gateway in front of a language model that answers chat completion requests. Prompts are
embedded and looked up in a vector database; a prompt that is similar enough to one seen before
gets the stored answer, marked with `[CACHED]`, and any other is answered by the language model
and stored.

* `src/` holds the decisions and computations of the gateway, verified with Verus: which requests
  are accepted, how a prompt is embedded, whether a search is a hit or a miss, what is stored and
  read back, what is counted and reported. Calls of outside crates stand behind small functions
  whose contracts are stated and not proved. Arithmetic on floating point numbers goes through the
  traits of `number.rs`; what is computed is stated as the operations that lead to it.
* `app/` is the program: HTTP routes, the services the gateway talks to, JSON and floating point.
* `tests/` runs the library, the outside crates included.

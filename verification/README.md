# srlbot

A bot that bridges Discord and the SpeedRunsLive IRC network. On Discord it takes the
commands `ping`, `roll`, `lottery` and `startrace`. On IRC it has RaceBot start the races
that were asked for, joins the races that RaceBot announces, and answers `.entrants`,
`.botenter`, `.botjoin`, `.botquit`, `.botforfeit`, `.roll` and `.multi`.

- `src/` holds the rules of the bot as a library verified with Verus. It takes messages
  and the time as plain values and returns the steps to take.
- `app/` is the program: it reads `config.json`, keeps the connections, hands what comes
  in to the library and takes the steps that it returns.
- `tests/` runs the library.

The library relies on some behaviour of other crates that is not proved: each call into
`regex`, `rand` or `irc` stands in a small function whose comment says what is trusted.
